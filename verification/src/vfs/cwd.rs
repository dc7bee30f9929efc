//! The working directory: printing an entry's path and changing the
//! directory a context resolves relative paths from.
use crate::errno::{ELOOP, ENOENT, ENOTDIR, ERANGE};
use crate::vfs::dcache::{coherent, is_dir_entry, keeps_inodes, keeps_links, lemma_flag_bits, open_walk, DentryCache};
use crate::vfs::inode::Inode;
use crate::vfs::path::Path;
use crate::vfs::FsContext;
use vstd::prelude::*;

verus! {

/// How many names a printed path may have.
pub const MAX_PATH_DEPTH: usize = 33;

/// The names from `root` down to entry `id`, following parents up at most
/// `k` steps; `None` when `root` is not reached in time.
pub open spec fn ancestry<I: Inode>(c: DentryCache<I>, root: usize, id: usize, k: nat) -> Option<
    Seq<Seq<u8>>,
>
    decreases k,
{
    if id == root {
        Some(Seq::empty())
    } else if k == 0 {
        None
    } else {
        match ancestry(c, root, c.entries()[id as int].spec_parent(), (k - 1) as nat) {
            Some(s) => Some(s.push(c.entries()[id as int].spec_name())),
            None => None,
        }
    }
}

/// Each name followed by a slash.
pub open spec fn join_names(ns: Seq<Seq<u8>>) -> Seq<u8>
    decreases ns.len(),
{
    if ns.len() == 0 {
        Seq::empty()
    } else {
        join_names(ns.drop_last()) + ns.last() + seq![47u8]
    }
}

/// The printed path of names `ns`: a slash, each name followed by a
/// slash, and a NUL.
pub open spec fn path_text(ns: Seq<Seq<u8>>) -> Seq<u8> {
    seq![47u8] + join_names(ns) + seq![0u8]
}

/// `x` with `t` appended when it is some.
pub open spec fn extend(x: Option<Seq<Seq<u8>>>, t: Seq<Seq<u8>>) -> Option<Seq<Seq<u8>>> {
    match x {
        Some(s) => Some(s + t),
        None => None,
    }
}

fn append(dst: &mut Vec<u8>, src: &Vec<u8>)
    ensures
        final(dst)@ == old(dst)@ + src@,
{
    let mut i: usize = 0;
    while i < src.len()
        invariant
            i <= src@.len(),
            dst@ == old(dst)@ + src@.subrange(0, i as int),
        decreases src@.len() - i,
    {
        dst.push(src[i]);
        i = i + 1;
        assert(dst@ =~= old(dst)@ + src@.subrange(0, i as int));
    }
    assert(src@.subrange(0, src@.len() as int) =~= src@);
}

impl<I: Inode> DentryCache<I> {
    /// The path of entry `id` as seen from the context's root: a slash,
    /// the names from the root down, each followed by a slash, and a NUL.
    /// `ELOOP` when the root is not met within 33 names.
    pub fn get_path(&self, context: &FsContext, id: usize) -> (r: Result<Vec<u8>, u32>)
        requires
            self.wf(),
            id < self.entries().len(),
        ensures
            match ancestry(*self, context.fsroot, id, MAX_PATH_DEPTH as nat) {
                None => r == Err::<Vec<u8>, u32>(ELOOP),
                Some(ns) => r matches Ok(v) && v@ == path_text(ns),
            },
    {
        let mut names: Vec<Vec<u8>> = Vec::new();
        let mut cur = id;
        let ghost mut tail: Seq<Seq<u8>> = Seq::empty();
        while cur != context.fsroot
            invariant
                self.wf(),
                cur < self.entries().len(),
                names@.len() <= MAX_PATH_DEPTH,
                tail.len() == names@.len(),
                forall|k: int| 0 <= k < tail.len() ==> #[trigger] tail[k] == names@[names@.len() - 1 - k]@,
                ancestry(*self, context.fsroot, id, MAX_PATH_DEPTH as nat) == extend(
                    ancestry(*self, context.fsroot, cur, (MAX_PATH_DEPTH - names@.len()) as nat),
                    tail,
                ),
            decreases MAX_PATH_DEPTH - names@.len(),
        {
            if names.len() >= MAX_PATH_DEPTH {
                return Err(ELOOP);
            }
            let d = self.get(cur);
            let mut name: Vec<u8> = Vec::new();
            let bytes = d.get_name();
            let mut i: usize = 0;
            while i < bytes.len()
                invariant
                    i <= bytes@.len(),
                    name@ == bytes@.subrange(0, i as int),
                decreases bytes@.len() - i,
            {
                name.push(bytes[i]);
                i = i + 1;
                assert(name@ =~= bytes@.subrange(0, i as int));
            }
            assert(name@ =~= bytes@);
            let ghost k = (MAX_PATH_DEPTH - names@.len()) as nat;
            let ghost old_tail = tail;
            let ghost up = ancestry(*self, context.fsroot, d.spec_parent(), (k - 1) as nat);
            proof {
                tail = seq![name@].add(tail);
                assert(extend(extend(up, seq![name@]), old_tail) == extend(up, tail)) by {
                    if up is Some {
                        assert(up->0.push(name@) + old_tail =~= up->0 + tail);
                    }
                }
            }
            names.push(name);
            cur = d.parent_addr();
            proof {
                assert forall|j: int| 0 <= j < tail.len() implies #[trigger] tail[j]
                    == names@[names@.len() - 1 - j]@ by {
                    if j > 0 {
                        assert(tail[j] == old_tail[j - 1]);
                    }
                }
            }
        }
        let mut out: Vec<u8> = Vec::new();
        out.push(47u8);
        let mut m: usize = 0;
        let n = names.len();
        while m < n
            invariant
                m <= n,
                n == names@.len(),
                tail.len() == n,
                forall|k: int| 0 <= k < tail.len() ==> #[trigger] tail[k] == names@[n - 1 - k]@,
                out@ == seq![47u8] + join_names(tail.subrange(0, m as int)),
            decreases n - m,
        {
            let ghost before = out@;
            append(&mut out, &names[n - 1 - m]);
            out.push(47u8);
            proof {
                let s = tail.subrange(0, m + 1);
                assert(s.drop_last() =~= tail.subrange(0, m as int));
                assert(s.last() == tail[m as int]);
                assert(out@ =~= seq![47u8] + join_names(s));
            }
            m = m + 1;
        }
        out.push(0u8);
        proof {
            assert(tail.subrange(0, n as int) =~= tail);
            assert(Seq::<Seq<u8>>::empty() + tail =~= tail);
        }
        Ok(out)
    }
}

/// `getcwd` into a buffer of `bufsize` bytes: the path of the working
/// directory; `ERANGE` when it is longer than a page or than the buffer.
pub fn getcwd<I: Inode>(cache: &DentryCache<I>, context: &FsContext, bufsize: usize) -> (r: Result<
    Vec<u8>,
    u32,
>)
    requires
        cache.wf(),
        context.cwd < cache.entries().len(),
    ensures
        match ancestry(*cache, context.fsroot, context.cwd, MAX_PATH_DEPTH as nat) {
            None => r == Err::<Vec<u8>, u32>(ELOOP),
            Some(ns) => if path_text(ns).len() > 4096 || path_text(ns).len() > bufsize {
                r == Err::<Vec<u8>, u32>(ERANGE)
            } else {
                r matches Ok(v) && v@ == path_text(ns)
            },
        },
{
    let p = match cache.get_path(context, context.cwd) {
        Ok(p) => p,
        Err(e) => return Err(e),
    };
    if p.len() > 4096 || p.len() > bufsize {
        return Err(ERANGE);
    }
    Ok(p)
}

impl FsContext {
    /// Make entry `id` the working directory (`fchdir`): `ENOENT` when it
    /// has no inode, `ENOTDIR` when it is not a directory; nothing changes
    /// then.
    pub fn fchdir<I: Inode>(&mut self, cache: &DentryCache<I>, id: usize) -> (r: Result<(), u32>)
        requires
            cache.wf(),
            id < cache.entries().len(),
        ensures
            cache.entries()[id as int].spec_data() is None ==> r == Err::<(), u32>(ENOENT)
                && *final(self) == *old(self),
            cache.entries()[id as int].spec_data() is Some && !is_dir_entry(*cache, id) ==> r
                == Err::<(), u32>(ENOTDIR) && *final(self) == *old(self),
            is_dir_entry(*cache, id) ==> r is Ok && *final(self) == (FsContext { cwd: id, ..*old(self) }),
    {
        let d = cache.get(id);
        if !d.is_valid() {
            return Err(ENOENT);
        }
        proof {
            let f = (cache.entries()[id as int].spec_data()->0).1;
            lemma_flag_bits(f);
        }
        if !d.is_directory() {
            return Err(ENOTDIR);
        }
        self.cwd = id;
        Ok(())
    }

    /// Change the working directory to `path`, following symbolic links
    /// (`chdir`): the lookup's error, or as `fchdir` on what it finds.
    pub fn chdir<I: Inode>(&mut self, cache: &mut DentryCache<I>, path: &Path) -> (r: Result<(), u32>)
        requires
            old(cache).wf(),
            old(self).cwd < old(cache).entries().len(),
            old(self).fsroot < old(cache).entries().len(),
        ensures
            final(cache).wf(),
            keeps_inodes(*old(cache), *final(cache)),
            keeps_links(*old(cache), *final(cache)),
            coherent(*old(cache)) ==> coherent(*final(cache)),
            r is Ok ==> final(self).fsroot == old(self).fsroot && final(self).umask == old(self).umask
                && is_dir_entry(*final(cache), final(self).cwd),
            r is Err ==> *final(self) == *old(self),
            path.components@.len() == 0 && is_dir_entry(
                *old(cache),
                if path.absolute {
                    old(self).fsroot
                } else {
                    old(self).cwd
                },
            ) ==> r is Ok && *final(self) == (FsContext {
                cwd: if path.absolute {
                    old(self).fsroot
                } else {
                    old(self).cwd
                },
                ..*old(self)
            }),
            coherent(*old(cache)) ==> match open_walk(*old(cache), *old(self), old(self).cwd, *path, true) {
                Some(Ok(d)) => is_dir_entry(*old(cache), d) ==> r is Ok && *final(self) == (FsContext {
                    cwd: d,
                    ..*old(self)
                }),
                Some(Err(e)) => r == Err::<(), u32>(e),
                None => true,
            },
    {
        let id = match cache.open(self, path, true) {
            Ok(id) => id,
            Err(e) => return Err(e),
        };
        self.fchdir(cache, id)
    }
}

} // verus!
