//! The dentry cache: every entry made so far, by id, and the hash buckets
//! that find an entry again by parent and name.
use crate::errno::{EEXIST, EINVAL, EISDIR, ELOOP, ENOENT, ENOTDIR};
use crate::vfs::dentry::{
    dentry_hash, flags_for_mode, hash_of, spec_flags_for_mode, Dentry, D_DIRECTORY, D_REGULAR, D_SYMLINK,
};
use crate::vfs::inode::{file_format, spec_format, Inode, S_IFBLK, S_IFCHR, S_IFDIR, S_IFREG};
use crate::vfs::path::{component_name, Path, PathComponent};
use crate::vfs::FsContext;
use std::sync::Arc;
use vstd::prelude::*;

verus! {

/// How many bits of an entry's hash pick its bucket.
pub const DCACHE_HASH_BITS: u32 = 8;

/// How many buckets the cache has.
pub const DCACHE_SIZE: usize = 256;

/// How deep symbolic links may nest in a lookup.
pub const MAX_LINK_DEPTH: u32 = 16;

/// The bucket of an entry with hash `h`.
pub open spec fn bucket_of(h: u64) -> int {
    (h % 256) as int
}

/// An entry's flags say exactly one of directory, symbolic link or regular.
pub open spec fn valid_data<I>(data: Option<(Arc<I>, u64)>) -> bool {
    data matches Some((_, f)) ==> f == D_DIRECTORY || f == D_SYMLINK || f == D_REGULAR
}

/// Whether two entries are the same name under the same parent.
pub open spec fn same_entry<I: Inode>(a: Dentry<I>, b: Dentry<I>) -> bool {
    a.spec_hash() == b.spec_hash() && a.spec_parent() == b.spec_parent() && a.spec_name()
        == b.spec_name()
}

/// What following entry `id` to a directory gives where no file system
/// call decides it: the entry itself for a directory, `ENOENT` for an entry
/// without inode, `ENOTDIR` for a regular file; `None` for a symbolic link,
/// whose target only the file system knows.
pub open spec fn resolved<I: Inode>(c: DentryCache<I>, id: usize) -> Option<Result<usize, u32>> {
    match c.entries()[id as int].spec_data() {
        None => Some(Err(ENOENT)),
        Some((_, f)) => if f == D_DIRECTORY {
            Some(Ok(id))
        } else if f == D_REGULAR {
            Some(Err(ENOTDIR))
        } else {
            None
        },
    }
}

/// The entry that name `n` leads to in directory `dir`: `.` is the
/// directory, `..` its parent, another name the linked entry of that name
/// under it; `None` when none is linked, as only the file system knows then.
pub open spec fn walk_name<I: Inode>(c: DentryCache<I>, dir: usize, n: Seq<u8>) -> Option<usize> {
    if n == seq![46u8] {
        Some(dir)
    } else if n == seq![46u8, 46u8] {
        Some(c.entries()[dir as int].spec_parent())
    } else if exists|x: usize| linked_child(c, dir, n, x) {
        Some(choose|x: usize| linked_child(c, dir, n, x))
    } else {
        None
    }
}

/// The outcome of walking `comps` from entry `cur` in cache `c`, with
/// `root` the context's root, where no file system call decides it; `None`
/// where one does (a symbolic link on the way, or a name the cache does not
/// hold). Each component first needs `cur` to be a directory (`ENOENT`
/// without inode, `ENOTDIR` for a regular file), except that a trailing
/// slash after an entry without inode ends the walk there; `.` and a
/// trailing slash stay, `..` stays at the root and otherwise goes to the
/// parent, which must be a directory; a name goes to the entry linked
/// under `cur`. With `follow`, a final symbolic link is left to the file
/// system.
pub open spec fn walk<I: Inode>(
    c: DentryCache<I>,
    root: usize,
    cur: usize,
    comps: Seq<PathComponent>,
    follow: bool,
) -> Option<Result<usize, u32>>
    decreases comps.len(),
{
    if comps.len() == 0 {
        if follow && (c.entries()[cur as int].spec_data() matches Some((_, f)) && f == D_SYMLINK) {
            None
        } else {
            Some(Ok(cur))
        }
    } else if comps[0] is TrailingEmpty && c.entries()[cur as int].spec_data() is None {
        Some(Ok(cur))
    } else {
        match resolved(c, cur) {
            Some(Ok(_)) => {
                let next: Option<Result<usize, u32>> = match comps[0] {
                    PathComponent::Parent => if same_entry(c.entries()[cur as int], c.entries()[root as int]) {
                        Some(Ok(cur))
                    } else {
                        resolved(c, c.entries()[cur as int].spec_parent())
                    },
                    PathComponent::Name(n) => match walk_name(c, cur, n@) {
                        Some(x) => Some(Ok(x)),
                        None => None,
                    },
                    _ => Some(Ok(cur)),
                };
                match next {
                    Some(Ok(d)) => walk(c, root, d, comps.drop_first(), follow),
                    other => other,
                }
            },
            other => other,
        }
    }
}

/// The outcome of walking `path` from entry `start`, or from the context's
/// root when the path is absolute, as `walk` gives it.
pub open spec fn open_walk<I: Inode>(
    c: DentryCache<I>,
    context: FsContext,
    start: usize,
    path: Path,
    follow: bool,
) -> Option<Result<usize, u32>> {
    walk(
        c,
        context.fsroot,
        if path.absolute {
            context.fsroot
        } else {
            start
        },
        path.components@,
        follow,
    )
}

/// Where a read or a write of a file goes.
#[derive(Clone, Copy, PartialEq, Eq, Structural, Debug)]
pub enum IoTarget {
    /// The inode's own data.
    File,
    /// The block device the inode names.
    BlockDevice,
    /// The character device the inode names.
    CharDevice,
}

/// Where a read (`write` false) or a write of an inode of mode `mode` goes:
/// `EISDIR` for a directory, a regular file's own data, the device of a
/// block device (for reading only: `EINVAL` for a write) or of a character
/// device, and `EINVAL` for any other format.
pub open spec fn spec_io_target(mode: u32, write: bool) -> Result<IoTarget, u32> {
    let f = spec_format(mode);
    if f == S_IFDIR {
        Err(EISDIR)
    } else if f == S_IFREG {
        Ok(IoTarget::File)
    } else if f == S_IFBLK {
        if write {
            Err(EINVAL)
        } else {
            Ok(IoTarget::BlockDevice)
        }
    } else if f == S_IFCHR {
        Ok(IoTarget::CharDevice)
    } else {
        Err(EINVAL)
    }
}

/// Where a read (`write` false) or a write of an inode of mode `mode` goes.
pub fn io_target(mode: u32, write: bool) -> (r: Result<IoTarget, u32>)
    ensures
        r == spec_io_target(mode, write),
{
    let f = file_format(mode);
    if f == S_IFDIR {
        Err(EISDIR)
    } else if f == S_IFREG {
        Ok(IoTarget::File)
    } else if f == S_IFBLK {
        if write {
            Err(EINVAL)
        } else {
            Ok(IoTarget::BlockDevice)
        }
    } else if f == S_IFCHR {
        Ok(IoTarget::CharDevice)
    } else {
        Err(EINVAL)
    }
}

/// Every entry of `before` that has an inode has the same inode and flags
/// in `after`: an entry once valid stays valid.
pub open spec fn keeps_inodes<I: Inode>(before: DentryCache<I>, after: DentryCache<I>) -> bool {
    &&& before.entries().len() <= after.entries().len()
    &&& forall|i: int|
        0 <= i < before.entries().len() && (#[trigger] before.entries()[i]).spec_data() is Some
            ==> after.entries()[i].spec_data() == before.entries()[i].spec_data()
}

/// Every entry linked in `before` is still linked in `after`.
pub open spec fn keeps_links<I: Inode>(before: DentryCache<I>, after: DentryCache<I>) -> bool {
    forall|x: usize| #[trigger] before.linked(x) ==> after.linked(x)
}

/// What a read or a write of a file gives: the inode's own answer, or the
/// device it names, which the caller reads or writes.
#[derive(PartialEq, Eq, Debug)]
pub enum FileIo<T> {
    Done(T),
    Device { target: IoTarget, devid: u32 },
}

/// The outcome of a read or write of an inode whose mode `io_target` sends
/// to `target`: for a file, `file` answered by the inode's own read or
/// write; for a device, the device number `dev` the inode gave.
pub open spec fn io_outcome<T>(
    target: Result<IoTarget, u32>,
    file: Result<T, u32>,
    dev: Result<u32, u32>,
    r: Result<FileIo<T>, u32>,
) -> bool {
    match target {
        Err(e) => r == Err::<FileIo<T>, u32>(e),
        Ok(IoTarget::File) => r == match file {
            Ok(v) => Ok::<FileIo<T>, u32>(FileIo::Done(v)),
            Err(e) => Err(e),
        },
        Ok(t) => r == match dev {
            Ok(d) => Ok::<FileIo<T>, u32>(FileIo::Device { target: t, devid: d }),
            Err(e) => Err(e),
        },
    }
}

/// The contract of a path walk from entry `start` at link depth `nrecur`,
/// as `open_recursive` makes it: the cache only grows and stays coherent,
/// `ELOOP` at the depth limit with nothing changed, an empty path gives its
/// start (the root for an absolute path) when it is not followed or is a
/// directory, a found entry without following bears the path's last name,
/// and in a coherent cache the result is `open_walk`'s wherever that is
/// determined, with nothing changed.
pub open spec fn resolution<I: Inode>(
    before: DentryCache<I>,
    after: DentryCache<I>,
    context: FsContext,
    start: usize,
    path: Path,
    follow: bool,
    nrecur: u32,
    r: Result<usize, u32>,
) -> bool {
    let first = if path.absolute {
        context.fsroot
    } else {
        start
    };
    &&& after.wf()
    &&& keeps_inodes(before, after)
    &&& keeps_links(before, after)
    &&& grows(before, after)
    &&& (coherent(before) ==> coherent(after))
    &&& (nrecur >= MAX_LINK_DEPTH ==> r == Err::<usize, u32>(ELOOP) && after == before)
    &&& (r matches Ok(d) ==> d < after.entries().len())
    &&& (nrecur < MAX_LINK_DEPTH && path.components@.len() == 0 && !follow ==> r == Ok::<usize, u32>(first))
    &&& (!follow && path.well_placed() ==> (path.final_name() matches Some(n) ==> (r matches Ok(d)
        ==> after.entries()[d as int].spec_name() == n)))
    &&& (nrecur < MAX_LINK_DEPTH && path.components@.len() == 0 && is_dir_entry(before, first) ==> r
        == Ok::<usize, u32>(first))
    &&& (nrecur < MAX_LINK_DEPTH && coherent(before) && open_walk(before, context, start, path, follow) is Some
        ==> open_walk(before, context, start, path, follow) == Some(r) && after == before)
}

/// All entries made so far, by id (the root is id 0), and the buckets of
/// the entries that can be found by name.
pub struct DentryCache<I> {
    entries: Vec<Dentry<I>>,
    buckets: Vec<Vec<usize>>,
}

/// Whether `after` keeps every entry of `before` with its place in the
/// tree, only adding entries.
pub open spec fn keeps_entries<I: Inode>(before: Seq<Dentry<I>>, after: Seq<Dentry<I>>) -> bool {
    &&& before.len() <= after.len()
    &&& forall|i: int|
        0 <= i < before.len() ==> (#[trigger] after[i]).spec_parent() == before[i].spec_parent()
            && after[i].spec_name() == before[i].spec_name() && after[i].spec_hash()
            == before[i].spec_hash()
}

/// The buckets agree with the hashes of the entries in them, and no two
/// linked entries have the same name under the same parent.
pub open spec fn coherent<I: Inode>(c: DentryCache<I>) -> bool {
    &&& forall|b: int, k: int|
        0 <= b < 256 && 0 <= k < c.bucket(b).len() ==> bucket_of(
            c.entries()[#[trigger] c.bucket(b)[k] as int].spec_hash(),
        ) == b
    &&& forall|b: int, k1: int, k2: int|
        0 <= b < 256 && 0 <= k1 < c.bucket(b).len() && 0 <= k2 < c.bucket(b).len()
            && #[trigger] c.bucket(b)[k1] != #[trigger] c.bucket(b)[k2] ==> !same_entry(
            c.entries()[c.bucket(b)[k1] as int],
            c.entries()[c.bucket(b)[k2] as int],
        )
}

/// No linked entry but `id` itself has `id`'s name under `id`'s parent.
pub open spec fn no_linked_twin<I: Inode>(c: DentryCache<I>, id: usize) -> bool {
    forall|b: int, k: int|
        0 <= b < 256 && 0 <= k < c.bucket(b).len() && #[trigger] c.bucket(b)[k] != id ==> !same_entry(
            c.entries()[c.bucket(b)[k] as int],
            c.entries()[id as int],
        )
}

/// Entry `x` is linked and named `name` under entry `dir`.
pub open spec fn linked_child<I: Inode>(c: DentryCache<I>, dir: usize, name: Seq<u8>, x: usize) -> bool {
    &&& x < c.entries().len()
    &&& c.linked(x)
    &&& c.entries()[x as int].spec_parent() == dir
    &&& c.entries()[x as int].spec_name() == name
}

/// Coherence only looks at the linked entries' places: it survives any
/// change that keeps the buckets and the places of existing entries.
proof fn lemma_coherent_frame<I: Inode>(c0: DentryCache<I>, c1: DentryCache<I>)
    requires
        c0.wf(),
        coherent(c0),
        keeps_entries(c0.entries(), c1.entries()),
        forall|b: int| 0 <= b < 256 ==> #[trigger] c1.bucket(b) == c0.bucket(b),
    ensures
        coherent(c1),
{
    assert forall|b: int, k: int| 0 <= b < 256 && 0 <= k < c1.bucket(b).len() implies bucket_of(
        c1.entries()[#[trigger] c1.bucket(b)[k] as int].spec_hash(),
    ) == b by {
        assert(c1.bucket(b) == c0.bucket(b));
        let x = c0.bucket(b)[k];
        assert(x < c0.entries().len());
        assert(c1.entries()[x as int].spec_hash() == c0.entries()[x as int].spec_hash());
    }
    assert forall|b: int, k1: int, k2: int|
        0 <= b < 256 && 0 <= k1 < c1.bucket(b).len() && 0 <= k2 < c1.bucket(b).len()
            && #[trigger] c1.bucket(b)[k1] != #[trigger] c1.bucket(b)[k2] implies !same_entry(
        c1.entries()[c1.bucket(b)[k1] as int],
        c1.entries()[c1.bucket(b)[k2] as int],
    ) by {
        assert(c1.bucket(b) == c0.bucket(b));
        let x = c0.bucket(b)[k1];
        let y = c0.bucket(b)[k2];
        assert(x < c0.entries().len() && y < c0.entries().len());
        assert(c1.entries()[x as int].spec_hash() == c0.entries()[x as int].spec_hash());
        assert(c1.entries()[y as int].spec_hash() == c0.entries()[y as int].spec_hash());
        assert(!same_entry(c0.entries()[x as int], c0.entries()[y as int]));
    }
}

/// In a coherent cache a linked entry with the name and parent of `d` is
/// the only one: it sits in `d`'s bucket, and no other entry there matches.
proof fn lemma_twin_in_bucket<I: Inode>(c: DentryCache<I>, d: Dentry<I>, x: usize)
    requires
        c.wf(),
        coherent(c),
        c.linked(x),
        same_entry(c.entries()[x as int], d),
    ensures
        c.bucket(bucket_of(d.spec_hash())).contains(x),
        forall|k: int|
            0 <= k < c.bucket(bucket_of(d.spec_hash())).len() && same_entry(
                c.entries()[#[trigger] c.bucket(bucket_of(d.spec_hash()))[k] as int],
                d,
            ) ==> c.bucket(bucket_of(d.spec_hash()))[k] == x,
{
    let b = choose|b: int| 0 <= b < 256 && #[trigger] c.bucket(b).contains(x);
    let k = choose|k: int| 0 <= k < c.bucket(b).len() && c.bucket(b)[k] == x;
    assert(bucket_of(c.entries()[c.bucket(b)[k] as int].spec_hash()) == b);
    assert(b == bucket_of(d.spec_hash()));
    let bk = c.bucket(b);
    assert forall|j: int| 0 <= j < bk.len() && same_entry(c.entries()[#[trigger] bk[j] as int], d) implies bk[j] == x by {
        if bk[j] != x {
            assert(!same_entry(c.entries()[bk[j] as int], c.entries()[bk[k] as int]));
        }
    }
}

/// In a coherent cache an entry is linked only in the bucket of its hash.
proof fn lemma_own_bucket<I: Inode>(c: DentryCache<I>, x: usize, b: int)
    requires
        coherent(c),
        0 <= b < 256,
        c.bucket(b).contains(x),
    ensures
        b == bucket_of(c.entries()[x as int].spec_hash()),
{
    let k = choose|k: int| 0 <= k < c.bucket(b).len() && c.bucket(b)[k] == x;
    assert(bucket_of(c.entries()[c.bucket(b)[k] as int].spec_hash()) == b);
}

/// In a coherent cache two different linked entries differ in name or
/// parent.
proof fn lemma_linked_distinct<I: Inode>(c: DentryCache<I>, x: usize, y: usize)
    requires
        coherent(c),
        c.linked(x),
        c.linked(y),
        x != y,
    ensures
        !same_entry(c.entries()[x as int], c.entries()[y as int]),
{
    let bx = choose|b: int| 0 <= b < 256 && #[trigger] c.bucket(b).contains(x);
    let by = choose|b: int| 0 <= b < 256 && #[trigger] c.bucket(b).contains(y);
    lemma_own_bucket(c, x, bx);
    lemma_own_bucket(c, y, by);
    if same_entry(c.entries()[x as int], c.entries()[y as int]) {
        assert(bx == by);
        let kx = choose|k: int| 0 <= k < c.bucket(bx).len() && c.bucket(bx)[k] == x;
        let ky = choose|k: int| 0 <= k < c.bucket(bx).len() && c.bucket(bx)[k] == y;
        assert(!same_entry(c.entries()[c.bucket(bx)[kx] as int], c.entries()[c.bucket(bx)[ky] as int]));
    }
}

impl<I: Inode> DentryCache<I> {
    /// The entries, by id.
    pub closed spec fn entries(&self) -> Seq<Dentry<I>> {
        self.entries@
    }

    /// The ids in bucket `b`.
    pub closed spec fn bucket(&self, b: int) -> Seq<usize> {
        self.buckets@[b]@
    }

    /// How many buckets there are.
    pub closed spec fn bucket_count(&self) -> nat {
        self.buckets@.len()
    }

    /// Every bucket holds ids of entries, every entry's parent is an entry,
    /// its flags are valid and its hash is that of its parent and name, and
    /// the root is there.
    pub open spec fn wf(&self) -> bool {
        &&& self.bucket_count() == 256
        &&& forall|b: int, k: int|
            0 <= b < 256 && 0 <= k < self.bucket(b).len() ==> #[trigger] self.bucket(b)[k]
                < self.entries().len()
        &&& forall|i: int|
            0 <= i < self.entries().len() ==> (#[trigger] self.entries()[i]).spec_parent()
                < self.entries().len()
        &&& self.entries().len() > 0
        &&& forall|i: int|
            0 <= i < self.entries().len() ==> valid_data(#[trigger] self.entries()[i].spec_data())
                && self.entries()[i].spec_hash() == dentry_hash(
                self.entries()[i].spec_parent(),
                self.entries()[i].spec_name(),
            )
    }

    /// Whether entry `id` can be found by name.
    pub open spec fn linked(&self, id: usize) -> bool {
        exists|b: int| 0 <= b < 256 && #[trigger] self.bucket(b).contains(id)
    }

    /// The ids in bucket `b`.
    fn bucket_ids(&self, b: usize) -> (r: Vec<usize>)
        requires
            self.wf(),
            b < 256,
        ensures
            r@ == self.bucket(b as int),
    {
        let src = &self.buckets[b];
        let mut r: Vec<usize> = Vec::new();
        let mut i: usize = 0;
        while i < src.len()
            invariant
                i <= src@.len(),
                r@ == src@.subrange(0, i as int),
            decreases src@.len() - i,
        {
            r.push(src[i]);
            i = i + 1;
            assert(r@ =~= src@.subrange(0, i as int));
        }
        assert(r@ =~= src@);
        r
    }

    /// Whether entry `id` is linked in some bucket, so that a lookup by
    /// name can find it.
    pub fn is_hashed(&self, id: usize) -> (r: bool)
        requires
            self.wf(),
        ensures
            r == self.linked(id),
    {
        let mut b: usize = 0;
        while b < DCACHE_SIZE
            invariant
                self.wf(),
                b <= 256,
                forall|c: int| 0 <= c < b ==> !(#[trigger] self.bucket(c)).contains(id),
            decreases 256 - b,
        {
            let ids = &self.buckets[b];
            let mut k: usize = 0;
            while k < ids.len()
                invariant
                    k <= ids@.len(),
                    ids@ == self.bucket(b as int),
                    b < 256,
                    forall|j: int| 0 <= j < k ==> ids@[j] != id,
                decreases ids@.len() - k,
            {
                if ids[k] == id {
                    assert(self.bucket(b as int)[k as int] == id);
                    assert(self.bucket(b as int).contains(id));
                    assert(0 <= b < 256);
                    return true;
                }
                k = k + 1;
            }
            b = b + 1;
        }
        false
    }

    /// Append `id` to bucket `b`.
    fn bucket_push(&mut self, b: usize, id: usize)
        requires
            old(self).wf(),
            b < 256,
            id < old(self).entries().len(),
        ensures
            final(self).wf(),
            final(self).entries() == old(self).entries(),
            final(self).bucket(b as int) == old(self).bucket(b as int).push(id),
            forall|c: int| 0 <= c < 256 && c != b ==> #[trigger] final(self).bucket(c) == old(self).bucket(c),
    {
        self.buckets[b].push(id);
        proof {
            assert forall|c: int, k: int|
                0 <= c < 256 && 0 <= k < self.bucket(c).len() implies #[trigger] self.bucket(c)[k]
                < self.entries().len() by {
                if c != b || k < old(self).bucket(c).len() {
                    assert(self.bucket(c)[k] == old(self).bucket(c)[k]);
                }
            }
        }
    }

    /// Bucket `b` without `id`.
    fn bucket_remove(&mut self, b: usize, id: usize)
        requires
            old(self).wf(),
            b < 256,
        ensures
            final(self).wf(),
            final(self).entries() == old(self).entries(),
            forall|y: usize| #[trigger] final(self).bucket(b as int).contains(y) <==> old(self).bucket(b as int).contains(y) && y != id,
            forall|c: int| 0 <= c < 256 && c != b ==> #[trigger] final(self).bucket(c) == old(self).bucket(c),
    {
        let ids = self.bucket_ids(b);
        let mut kept: Vec<usize> = Vec::new();
        let mut i: usize = 0;
        while i < ids.len()
            invariant
                i <= ids@.len(),
                ids@ == old(self).bucket(b as int),
                forall|y: usize| #[trigger] kept@.contains(y) <==> ids@.subrange(0, i as int).contains(y) && y != id,
            decreases ids@.len() - i,
        {
            let e = ids[i];
            let ghost prev = kept@;
            let ghost s0 = ids@.subrange(0, i as int);
            let ghost s1 = ids@.subrange(0, i + 1);
            if e != id {
                kept.push(e);
            }
            proof {
                assert(s1 =~= s0.push(e));
                assert forall|y: usize| #[trigger] kept@.contains(y) <==> s1.contains(y) && y != id by {
                    if kept@.contains(y) {
                        let j = choose|j: int| 0 <= j < kept@.len() && kept@[j] == y;
                        if j < prev.len() {
                            assert(prev[j] == y);
                            assert(prev.contains(y));
                            let k = choose|k: int| 0 <= k < s0.len() && s0[k] == y;
                            assert(s1[k] == y);
                        } else {
                            assert(s1[s0.len() as int] == y);
                        }
                    }
                    if s1.contains(y) && y != id {
                        let k = choose|k: int| 0 <= k < s1.len() && s1[k] == y;
                        if k < s0.len() {
                            assert(s0[k] == y);
                            assert(prev.contains(y));
                            let j = choose|j: int| 0 <= j < prev.len() && prev[j] == y;
                            assert(kept@[j] == y);
                        } else {
                            assert(kept@[kept@.len() - 1] == y);
                        }
                    }
                }
            }
            i = i + 1;
        }
        proof {
            assert(ids@.subrange(0, ids@.len() as int) =~= ids@);
        }
        self.buckets.set(b, kept);
        proof {
            assert forall|c: int, k: int|
                0 <= c < 256 && 0 <= k < self.bucket(c).len() implies #[trigger] self.bucket(c)[k]
                < self.entries().len() by {
                if c != b {
                    assert(self.bucket(c)[k] == old(self).bucket(c)[k]);
                } else {
                    let y = self.bucket(c)[k];
                    assert(self.bucket(c).contains(y));
                    let j = choose|j: int| 0 <= j < old(self).bucket(c).len() && old(self).bucket(c)[j] == y;
                    assert(old(self).bucket(c)[j] < old(self).entries().len());
                }
            }
        }
    }

    /// Bucket `b` with every `old_id` changed to `new_id`.
    fn bucket_replace(&mut self, b: usize, old_id: usize, new_id: usize)
        requires
            old(self).wf(),
            b < 256,
            new_id < old(self).entries().len(),
        ensures
            final(self).wf(),
            final(self).entries() == old(self).entries(),
            final(self).bucket(b as int).len() == old(self).bucket(b as int).len(),
            forall|k: int|
                0 <= k < old(self).bucket(b as int).len() ==> #[trigger] final(self).bucket(b as int)[k]
                    == if old(self).bucket(b as int)[k] == old_id {
                    new_id
                } else {
                    old(self).bucket(b as int)[k]
                },
            forall|c: int| 0 <= c < 256 && c != b ==> #[trigger] final(self).bucket(c) == old(self).bucket(c),
    {
        let ids = self.bucket_ids(b);
        let mut out: Vec<usize> = Vec::new();
        let mut i: usize = 0;
        while i < ids.len()
            invariant
                i <= ids@.len(),
                ids@ == old(self).bucket(b as int),
                out@.len() == i,
                forall|k: int| 0 <= k < i ==> #[trigger] out@[k] == if ids@[k] == old_id { new_id } else { ids@[k] },
            decreases ids@.len() - i,
        {
            let e = ids[i];
            if e == old_id {
                out.push(new_id);
            } else {
                out.push(e);
            }
            i = i + 1;
        }
        self.buckets.set(b, out);
        proof {
            assert forall|c: int, k: int|
                0 <= c < 256 && 0 <= k < self.bucket(c).len() implies #[trigger] self.bucket(c)[k]
                < self.entries().len() by {
                if c != b {
                    assert(self.bucket(c)[k] == old(self).bucket(c)[k]);
                } else {
                    assert(old(self).bucket(c)[k] < old(self).entries().len());
                }
            }
        }
    }

    /// The entry `name` in directory `id`: `id` itself for `.`, its parent
    /// for `..`, else the cached entry of that name, or a new one looked up
    /// in the directory and cached. `ENOENT` when `id` has no inode,
    /// `ENOTDIR` when it is not a directory.
    pub fn find(&mut self, id: usize, name: &[u8]) -> (r: Result<usize, u32>)
        requires
            old(self).wf(),
            id < old(self).entries().len(),
        ensures
            final(self).wf(),
            keeps_inodes(*old(self), *final(self)),
            keeps_links(*old(self), *final(self)),
            grows(*old(self), *final(self)),
            old(self).entries()[id as int].spec_data() is None ==> r == Err::<usize, u32>(ENOENT)
                && *final(self) == *old(self),
            old(self).entries()[id as int].spec_data() is Some && !is_dir_entry(*old(self), id)
                ==> r == Err::<usize, u32>(ENOTDIR) && *final(self) == *old(self),
            is_dir_entry(*old(self), id) ==> {
                &&& (name@ == seq![46u8] ==> r == Ok::<usize, u32>(id) && *final(self) == *old(self))
                &&& (name@ == seq![46u8, 46u8] ==> r == Ok::<usize, u32>(
                    old(self).entries()[id as int].spec_parent(),
                ) && *final(self) == *old(self))
                &&& (name@ != seq![46u8] && name@ != seq![46u8, 46u8] ==> (r matches Ok(c) && c
                    < final(self).entries().len() && final(self).entries()[c as int].spec_parent()
                    == id && final(self).entries()[c as int].spec_name() == name@))
            },
            r matches Ok(c) ==> c < final(self).entries().len(),
            coherent(*old(self)) ==> coherent(*final(self)),
            coherent(*old(self)) && is_dir_entry(*old(self), id) && name@ != seq![46u8] && name@
                != seq![46u8, 46u8] ==> {
                &&& r matches Ok(c) && final(self).linked(c)
                &&& forall|x: usize|
                    #[trigger] linked_child(*old(self), id, name@, x) ==> r == Ok::<usize, u32>(x)
                        && *final(self) == *old(self)
            },
    {
        let flags = self.get(id).flags();
        if !self.get(id).is_valid() {
            return Err(ENOENT);
        }
        if flags & D_DIRECTORY == 0 {
            proof {
                assert(D_DIRECTORY & D_DIRECTORY != 0) by (bit_vector);
            }
            return Err(ENOTDIR);
        }
        proof {
            assert(D_SYMLINK & D_DIRECTORY == 0) by (bit_vector);
            assert(D_REGULAR & D_DIRECTORY == 0) by (bit_vector);
            assert(self.entries()[id as int].spec_data() matches Some((_, f)) && f == D_DIRECTORY);
        }
        if name.len() == 1 && name[0] == 46u8 {
            assert(name@ =~= seq![46u8]);
            return Ok(id);
        }
        if name.len() == 2 && name[0] == 46u8 && name[1] == 46u8 {
            assert(name@ =~= seq![46u8, 46u8]);
            return Ok(self.get(id).parent_addr());
        }
        proof {
            if name@ == seq![46u8] {
                assert(name@.len() == 1);
            }
            if name@ == seq![46u8, 46u8] {
                assert(name@.len() == 2);
            }
        }
        let d: Dentry<I> = Dentry::create(id, name);
        proof {
            if coherent(*self) {
                assert forall|x: usize| #[trigger] linked_child(*self, id, name@, x) implies same_entry(self.entries()[x as int], d) by {
                    let e = self.entries()[x as int];
                    assert(valid_data(e.spec_data()) && e.spec_hash() == dentry_hash(e.spec_parent(), e.spec_name()));
                }
            }
        }
        match d_find_fast(self, &d) {
            Some(found) => {
                proof {
                    let bk = self.bucket(bucket_of(d.spec_hash()));
                    let k = choose|k: int| 0 <= k < bk.len() && bk[k] == found && same_entry(self.entries()[found as int], d)
                        && forall|j: int| 0 <= j < k ==> !same_entry(self.entries()[#[trigger] bk[j] as int], d);
                    assert(bk.contains(found));
                    assert(0 <= bucket_of(d.spec_hash()) < 256);
                    assert(self.linked(found));
                }
                return Ok(found);
            },
            None => {},
        }
        let ghost l0 = *self;
        let nid = self.insert(d);
        let ghost l1 = *self;
        d_try_revalidate(self, nid);
        let ghost l2 = *self;
        proof {
            if coherent(l0) {
                assert forall|b: int, k: int|
                    0 <= b < 256 && 0 <= k < l2.bucket(b).len() && #[trigger] l2.bucket(b)[k] != nid implies !same_entry(
                    l2.entries()[l2.bucket(b)[k] as int],
                    l2.entries()[nid as int],
                ) by {
                    let y = l0.bucket(b)[k];
                    assert(y < l0.entries().len());
                    assert(l0.bucket(b).contains(y));
                    assert(l0.linked(y));
                    assert(l2.entries()[y as int].spec_hash() == l0.entries()[y as int].spec_hash());
                    assert(l2.entries()[y as int].spec_parent() == l0.entries()[y as int].spec_parent());
                    assert(l2.entries()[y as int].spec_name() == l0.entries()[y as int].spec_name());
                    assert(l1.entries()[nid as int] == d);
                    if same_entry(l0.entries()[y as int], d) {
                        assert(false);
                    }
                }
            }
        }
        d_add(self, nid);
        proof {
            assert forall|i: int| 0 <= i < l0.entries().len() implies (#[trigger] self.entries()[i]).spec_data()
                == l0.entries()[i].spec_data() by {
                assert(self.entries()[i] == l0.entries()[i]);
            }
            let bb = bucket_of(l2.entries()[nid as int].spec_hash());
            assert(self.bucket(bb).contains(nid)) by {
                assert(self.bucket(bb)[self.bucket(bb).len() - 1] == nid);
            }
            assert(self.linked(nid));
            if coherent(l0) {
                assert forall|x: usize| #[trigger] linked_child(l0, id, name@, x) implies false by {
                    assert(same_entry(l0.entries()[x as int], d));
                }
            }
        }
        Ok(nid)
    }

    /// Follow entry `id` to a directory: a directory is itself, a
    /// symbolic link is followed (relative to the link's parent), anything
    /// else is `ENOTDIR`, an entry without inode `ENOENT`. `ELOOP` once
    /// `nrecur` links deep.
    pub fn resolve_directory(&mut self, context: &FsContext, id: usize, nrecur: u32) -> (r: Result<usize, u32>)
        requires
            old(self).wf(),
            id < old(self).entries().len(),
            context.fsroot < old(self).entries().len(),
        ensures
            final(self).wf(),
            keeps_inodes(*old(self), *final(self)),
            keeps_links(*old(self), *final(self)),
            grows(*old(self), *final(self)),
            coherent(*old(self)) ==> coherent(*final(self)),
            nrecur >= MAX_LINK_DEPTH ==> r == Err::<usize, u32>(ELOOP),
            nrecur < MAX_LINK_DEPTH && old(self).entries()[id as int].spec_data() is None ==> r == Err::<usize, u32>(ENOENT),
            nrecur < MAX_LINK_DEPTH && (old(self).entries()[id as int].spec_data() matches Some((_, f)) && f == D_REGULAR) ==> r == Err::<usize, u32>(ENOTDIR),
            nrecur < MAX_LINK_DEPTH && is_dir_entry(*old(self), id) ==> r == Ok::<usize, u32>(id),
            r matches Ok(d) ==> d < final(self).entries().len() && is_dir_entry(*final(self), d),
            nrecur >= MAX_LINK_DEPTH || !(old(self).entries()[id as int].spec_data() matches Some((_, f))
                && f == D_SYMLINK) ==> *final(self) == *old(self),
        decreases MAX_LINK_DEPTH - nrecur, 0int,
    {
        if nrecur >= MAX_LINK_DEPTH {
            return Err(ELOOP);
        }
        let flags = self.get(id).flags();
        let inode = match self.get(id).get_inode() {
            Ok(i) => i,
            Err(e) => return Err(e),
        };
        proof {
            assert(valid_data(self.entries()[id as int].spec_data()));
            lemma_flag_bits(flags);
        }
        if flags & D_REGULAR != 0 {
            return Err(ENOTDIR);
        }
        if flags & D_DIRECTORY != 0 {
            return Ok(id);
        }
        // a symbolic link
        let target = match inode.readlink() {
            Ok(t) => t,
            Err(e) => return Err(e),
        };
        let path = match Path::new(&target) {
            Ok(p) => p,
            Err(e) => return Err(e),
        };
        let parent = self.get(id).parent_addr();
        let ghost l0 = *self;
        let d = match self.open_recursive(context, parent, &path, true, nrecur + 1) {
            Ok(d) => d,
            Err(e) => return Err(e),
        };
        let ghost l1 = *self;
        let r = self.resolve_directory(context, d, nrecur + 1);
        proof {
            lemma_grows_trans(l0, l1, *self);
        }
        r
    }

    /// Walk `path` from `cwd` (from the context's root when it is
    /// absolute): each step needs a directory, `..` stays at the root, and
    /// with `follow` a final symbolic link is followed. `ELOOP` once
    /// `nrecur` links deep.
    #[verifier::rlimit(60)]
    pub fn open_recursive(
        &mut self,
        context: &FsContext,
        cwd: usize,
        path: &Path,
        follow: bool,
        nrecur: u32,
    ) -> (r: Result<usize, u32>)
        requires
            old(self).wf(),
            cwd < old(self).entries().len(),
            context.fsroot < old(self).entries().len(),
        ensures
            final(self).wf(),
            keeps_inodes(*old(self), *final(self)),
            keeps_links(*old(self), *final(self)),
            grows(*old(self), *final(self)),
            coherent(*old(self)) ==> coherent(*final(self)),
            nrecur >= MAX_LINK_DEPTH ==> r == Err::<usize, u32>(ELOOP) && *final(self) == *old(self),
            r matches Ok(d) ==> d < final(self).entries().len(),
            nrecur < MAX_LINK_DEPTH && path.components@.len() == 0 && !follow ==> r == Ok::<
                usize,
                u32,
            >(if path.absolute {
                context.fsroot
            } else {
                cwd
            }),
            !follow && path.well_placed() ==> (path.final_name() matches Some(n) ==> (r matches Ok(d)
                ==> final(self).entries()[d as int].spec_name() == n)),
            nrecur < MAX_LINK_DEPTH && path.components@.len() == 0 && is_dir_entry(
                *old(self),
                if path.absolute {
                    context.fsroot
                } else {
                    cwd
                },
            ) ==> r == Ok::<usize, u32>(if path.absolute {
                context.fsroot
            } else {
                cwd
            }),
            nrecur < MAX_LINK_DEPTH && coherent(*old(self)) && open_walk(*old(self), *context, cwd, *path, follow)
                is Some ==> open_walk(*old(self), *context, cwd, *path, follow) == Some(r) && *final(self)
                == *old(self),
            resolution(*old(self), *final(self), *context, cwd, *path, follow, nrecur, r),
        decreases MAX_LINK_DEPTH - nrecur, 1int,
    {
        if nrecur >= MAX_LINK_DEPTH {
            return Err(ELOOP);
        }
        let ghost l0 = *self;
        let mut cur: usize = if path.absolute {
            context.fsroot
        } else {
            cwd
        };
        let ghost comps = path.components@;
        let ghost n = comps.len();
        let ghost w = walk(l0, context.fsroot, cur, comps, follow);
        let ghost det = coherent(l0) && w is Some;
        proof {
            assert(comps.subrange(0, n as int) =~= comps);
            assert(open_walk(l0, *context, cwd, *path, follow) == w);
        }
        let mut i: usize = 0;
        while i < path.components.len()
            invariant
                self.wf(),
                grows(l0, *self),
                l0 == *old(self),
                l0.wf(),
                cur < self.entries().len(),
                context.fsroot < l0.entries().len(),
                i <= path.components@.len(),
                nrecur < MAX_LINK_DEPTH,
                coherent(l0) ==> coherent(*self),
                i == 0 ==> cur == (if path.absolute {
                    context.fsroot
                } else {
                    cwd
                }),
                i > 0 ==> (component_name(path.components@[i - 1]) matches Some(n)
                    ==> self.entries()[cur as int].spec_name() == n),
                comps == path.components@,
                n == comps.len(),
                det == (coherent(l0) && w is Some),
                open_walk(l0, *context, cwd, *path, follow) == w,
                det ==> *self == l0 && walk(l0, context.fsroot, cur, comps.subrange(i as int, n as int), follow)
                    == w,
            decreases path.components@.len() - i,
        {
            let ghost la = *self;
            let ghost rest = comps.subrange(i as int, n as int);
            proof {
                assert(rest[0] == comps[i as int]);
                assert(rest.drop_first() =~= comps.subrange(i + 1, n as int));
                if det {
                    assert(valid_data(l0.entries()[cur as int].spec_data()));
                }
            }
            let item = &path.components[i];
            let trailing = match item {
                PathComponent::TrailingEmpty => true,
                _ => false,
            };
            if trailing && !self.get(cur).is_valid() {
                proof {
                    if det {
                        assert(rest[0] is TrailingEmpty);
                        assert(l0.entries()[cur as int].spec_data() is None);
                        assert(walk(l0, context.fsroot, cur, rest, follow) == Some(Ok::<usize, u32>(cur)));
                    }
                }
                return Ok(cur);
            }
            let ghost c0 = cur;
            let rd = self.resolve_directory(context, cur, nrecur);
            proof {
                if det {
                    assert(resolved(l0, c0) is Some);
                    assert(*self == l0);
                    if rd is Err {
                        assert(w == Some(rd));
                    }
                }
            }
            cur = match rd {
                Ok(d) => d,
                Err(e) => {
                    proof {
                        lemma_grows_trans(l0, la, *self);
                    }
                    return Err(e);
                },
            };
            let ghost lb = *self;
            proof {
                lemma_grows_trans(l0, la, lb);
                if det {
                    assert(cur == c0);
                }
            }
            match item {
                PathComponent::TrailingEmpty => {},
                PathComponent::Current => {},
                PathComponent::Parent => {
                    let at_root = self.get(cur).hash_eq(self.get(context.fsroot));
                    if !at_root {
                        let parent = self.get(cur).parent_addr();
                        proof {
                            assert(valid_data(lb.entries()[parent as int].spec_data()));
                        }
                        let rp = self.resolve_directory(context, parent, nrecur);
                        proof {
                            if det {
                                assert(resolved(l0, parent) is Some);
                                assert(*self == l0);
                                if rp is Err {
                                    assert(w == Some(rp));
                                }
                            }
                        }
                        cur = match rp {
                            Ok(d) => d,
                            Err(e) => {
                                proof {
                                    lemma_grows_trans(l0, lb, *self);
                                }
                                return Err(e);
                            },
                        };
                        proof {
                            lemma_grows_trans(l0, lb, *self);
                        }
                    }
                },
                PathComponent::Name(name) => {
                    let rn = self.find(cur, name.as_slice());
                    proof {
                        if det {
                            assert(walk_name(l0, cur, name@) is Some);
                            if name@ != seq![46u8] && name@ != seq![46u8, 46u8] {
                                let x = choose|x: usize| linked_child(l0, cur, name@, x);
                                assert(linked_child(l0, cur, name@, x));
                            }
                            assert(*self == l0);
                            assert(rn is Ok);
                        }
                    }
                    cur = match rn {
                        Ok(d) => d,
                        Err(e) => {
                            proof {
                                lemma_grows_trans(l0, lb, *self);
                            }
                            return Err(e);
                        },
                    };
                    proof {
                        lemma_grows_trans(l0, lb, *self);
                    }
                },
            }
            i = i + 1;
        }
        proof {
            assert(comps.subrange(n as int, n as int) =~= Seq::<PathComponent>::empty());
        }
        if follow {
            let flags = self.get(cur).flags();
            proof {
                if path.components@.len() == 0 && is_dir_entry(l0, cur) {
                    assert(D_DIRECTORY & D_SYMLINK == 0) by (bit_vector);
                }
                if self.entries()[cur as int].spec_data() is Some {
                    assert(valid_data(self.entries()[cur as int].spec_data()));
                    lemma_flag_bits(flags);
                }
            }
            if self.get(cur).is_valid() && flags & D_SYMLINK != 0 {
                let inode = match self.get(cur).get_inode() {
                    Ok(i) => i,
                    Err(e) => return Err(e),
                };
                let target = match inode.readlink() {
                    Ok(t) => t,
                    Err(e) => return Err(e),
                };
                let p = match Path::new(&target) {
                    Ok(p) => p,
                    Err(e) => return Err(e),
                };
                let parent = self.get(cur).parent_addr();
                let ghost lc = *self;
                let r = self.open_recursive(context, parent, &p, true, nrecur + 1);
                proof {
                    lemma_grows_trans(l0, lc, *self);
                }
                return r;
            }
        }
        Ok(cur)
    }

    /// Walk `path` from entry `at`, as `open_recursive` does from the top.
    pub fn open_at(&mut self, context: &FsContext, at: usize, path: &Path, follow_symlinks: bool) -> (r: Result<usize, u32>)
        requires
            old(self).wf(),
            at < old(self).entries().len(),
            context.fsroot < old(self).entries().len(),
        ensures
            final(self).wf(),
            keeps_inodes(*old(self), *final(self)),
            keeps_links(*old(self), *final(self)),
            grows(*old(self), *final(self)),
            coherent(*old(self)) ==> coherent(*final(self)),
            r matches Ok(d) ==> d < final(self).entries().len(),
            path.components@.len() == 0 && !follow_symlinks ==> r == Ok::<usize, u32>(
                if path.absolute {
                    context.fsroot
                } else {
                    at
                },
            ),
            !follow_symlinks && path.well_placed() ==> (path.final_name() matches Some(n) ==> (r matches Ok(
                d,
            ) ==> final(self).entries()[d as int].spec_name() == n)),
            coherent(*old(self)) && open_walk(*old(self), *context, at, *path, follow_symlinks) is Some
                ==> open_walk(*old(self), *context, at, *path, follow_symlinks) == Some(r) && *final(self)
                == *old(self),
            resolution(*old(self), *final(self), *context, at, *path, follow_symlinks, 0, r),
    {
        self.open_recursive(context, at, path, follow_symlinks, 0)
    }

    /// Walk `path` from the context's working directory.
    pub fn open(&mut self, context: &FsContext, path: &Path, follow_symlinks: bool) -> (r: Result<usize, u32>)
        requires
            old(self).wf(),
            context.cwd < old(self).entries().len(),
            context.fsroot < old(self).entries().len(),
        ensures
            final(self).wf(),
            keeps_inodes(*old(self), *final(self)),
            keeps_links(*old(self), *final(self)),
            grows(*old(self), *final(self)),
            coherent(*old(self)) ==> coherent(*final(self)),
            r matches Ok(d) ==> d < final(self).entries().len(),
            path.components@.len() == 0 && !follow_symlinks ==> r == Ok::<usize, u32>(
                if path.absolute {
                    context.fsroot
                } else {
                    context.cwd
                },
            ),
            !follow_symlinks && path.well_placed() ==> (path.final_name() matches Some(n) ==> (r matches Ok(
                d,
            ) ==> final(self).entries()[d as int].spec_name() == n)),
            path.components@.len() == 0 && is_dir_entry(
                *old(self),
                if path.absolute {
                    context.fsroot
                } else {
                    context.cwd
                },
            ) ==> r == Ok::<usize, u32>(if path.absolute {
                context.fsroot
            } else {
                context.cwd
            }),
            coherent(*old(self)) && open_walk(*old(self), *context, context.cwd, *path, follow_symlinks) is Some
                ==> open_walk(*old(self), *context, context.cwd, *path, follow_symlinks) == Some(r) && *final(self)
                == *old(self),
            resolution(*old(self), *final(self), *context, context.cwd, *path, follow_symlinks, 0, r),
    {
        self.open_recursive(context, context.cwd, path, follow_symlinks, 0)
    }

    /// The inode of the parent of entry `id`; `ENOENT` when it has none.
    fn parent_inode(&self, id: usize) -> (r: Result<Arc<I>, u32>)
        requires
            self.wf(),
            id < self.entries().len(),
        ensures
            match self.entries()[self.entries()[id as int].spec_parent() as int].spec_data() {
                Some((inode, _)) => r == Ok::<Arc<I>, u32>(inode),
                None => r == Err::<Arc<I>, u32>(ENOENT),
            },
    {
        let parent = self.get(id).parent_addr();
        self.get(parent).get_inode()
    }

    /// Check entry `id` for an open with `flags`: an existing file is fine
    /// unless `O_CREAT` and `O_EXCL` are both given (`EEXIST`); a missing
    /// one is `ENOENT` without `O_CREAT`, else it is created in the parent
    /// directory (`ENOENT` when the parent has no inode).
    pub fn open_check(&mut self, id: usize, flags: u32, mode: u32) -> (r: Result<(), u32>)
        requires
            old(self).wf(),
            id < old(self).entries().len(),
        ensures
            final(self).wf(),
            keeps_inodes(*old(self), *final(self)),
            keeps_links(*old(self), *final(self)),
            coherent(*old(self)) ==> coherent(*final(self)),
            old(self).entries()[id as int].spec_data() is Some ==> *final(self) == *old(self) && r == (if flags & O_CREAT != 0 && flags & O_EXCL != 0 {
                Err::<(), u32>(EEXIST)
            } else {
                Ok::<(), u32>(())
            }),
            old(self).entries()[id as int].spec_data() is None && flags & O_CREAT == 0 ==> r == Err::<(), u32>(ENOENT) && *final(self) == *old(self),
            old(self).entries()[id as int].spec_data() is None && flags & O_CREAT != 0 && !parent_has_inode(*old(self), id) ==> r == Err::<(), u32>(ENOENT) && *final(self) == *old(self),
            old(self).entries()[id as int].spec_data() is None && r is Ok ==> saved_in(*old(self), *final(self), id),
            old(self).entries()[id as int].spec_data() is None && r is Err ==> *final(self) == *old(self),
            old(self).entries()[id as int].spec_data() is None && flags & O_CREAT != 0 ==> (parent_inode_of(*old(self), id) is Some ==> exists|name: &[u8], res: Result<Arc<I>, u32>|
                    #[trigger] call_ensures(I::creat, (&*parent_inode_of(*old(self), id)->0, name, mode), res) && name@ == old(self).entries()[
                        id as int].spec_name() && recorded(*old(self), *final(self), id, res, r)),
    {
        if self.get(id).is_valid() {
            if flags & O_CREAT != 0 && flags & O_EXCL != 0 {
                return Err(EEXIST);
            } else {
                return Ok(());
            }
        }
        if flags & O_CREAT == 0 {
            return Err(ENOENT);
        }
        let dir = match self.parent_inode(id) {
            Ok(d) => d,
            Err(e) => return Err(e),
        };
        let name = copy_bytes(self.get(id).get_name());
        let nm: &[u8] = name.as_slice();
        let res = dir.creat(nm, mode);
        let ghost c0 = *self;
        proof {
            assert(c0 == *old(self));
            assert(parent_inode_of(c0, id) == Some(dir));
        }
        let r = match res {
            Ok(inode) => {
                let _ = self.d_save(id, inode);
                Ok(())
            },
            Err(e) => Err(e),
        };
        proof {
            assert(call_ensures(I::creat, (&*dir, nm, mode), res) && nm@ == c0.entries()[id as int].spec_name()
                && recorded(c0, *self, id, res, r));
            assert(exists|name: &[u8], res2: Result<Arc<I>, u32>|
                #[trigger] call_ensures(I::creat, (&*parent_inode_of(*old(self), id)->0, name, mode), res2) && name@ == old(self).entries()[
                    id as int].spec_name() && recorded(*old(self), *self, id, res2, r));
        }
        r
    }

    /// Make a directory at entry `id`: `EEXIST` when it has an inode,
    /// `ENOENT` when its parent has none; else the parent directory makes
    /// it and the entry records the new inode.
    pub fn mkdir(&mut self, id: usize, mode: u32) -> (r: Result<(), u32>)
        requires
            old(self).wf(),
            id < old(self).entries().len(),
        ensures
            final(self).wf(),
            keeps_inodes(*old(self), *final(self)),
            keeps_links(*old(self), *final(self)),
            coherent(*old(self)) ==> coherent(*final(self)),
            old(self).entries()[id as int].spec_data() is Some ==> r == Err::<(), u32>(EEXIST) && *final(self) == *old(self),
            old(self).entries()[id as int].spec_data() is None && !parent_has_inode(*old(self), id) ==> r == Err::<(), u32>(ENOENT) && *final(self) == *old(self),
            r is Ok ==> saved_in(*old(self), *final(self), id),
            r is Err ==> *final(self) == *old(self),
            old(self).entries()[id as int].spec_data() is None ==> (parent_inode_of(*old(self), id) is Some ==> exists|name: &[u8], res: Result<Arc<I>, u32>|
                    #[trigger] call_ensures(I::mkdir, (&*parent_inode_of(*old(self), id)->0, name, mode), res) && name@ == old(self).entries()[
                        id as int].spec_name() && recorded(*old(self), *final(self), id, res, r)),
    {
        if self.get(id).is_valid() {
            return Err(EEXIST);
        }
        let dir = match self.parent_inode(id) {
            Ok(d) => d,
            Err(e) => return Err(e),
        };
        let name = copy_bytes(self.get(id).get_name());
        let nm: &[u8] = name.as_slice();
        let res = dir.mkdir(nm, mode);
        let ghost c0 = *self;
        proof {
            assert(c0 == *old(self));
            assert(parent_inode_of(c0, id) == Some(dir));
        }
        let r = match res {
            Ok(inode) => {
                let _ = self.d_save(id, inode);
                Ok(())
            },
            Err(e) => Err(e),
        };
        proof {
            assert(call_ensures(I::mkdir, (&*dir, nm, mode), res) && nm@ == c0.entries()[id as int].spec_name()
                && recorded(c0, *self, id, res, r));
            assert(exists|name: &[u8], res2: Result<Arc<I>, u32>|
                #[trigger] call_ensures(I::mkdir, (&*parent_inode_of(*old(self), id)->0, name, mode), res2) && name@ == old(self).entries()[
                    id as int].spec_name() && recorded(*old(self), *self, id, res2, r));
        }
        r
    }

    /// Make a symbolic link to `link` at entry `id`: `EEXIST` when it has
    /// an inode, `ENOENT` when its parent has none; else the parent
    /// directory makes it and the entry records the new inode.
    pub fn symlink(&mut self, id: usize, link: &[u8]) -> (r: Result<(), u32>)
        requires
            old(self).wf(),
            id < old(self).entries().len(),
        ensures
            final(self).wf(),
            keeps_inodes(*old(self), *final(self)),
            keeps_links(*old(self), *final(self)),
            coherent(*old(self)) ==> coherent(*final(self)),
            old(self).entries()[id as int].spec_data() is Some ==> r == Err::<(), u32>(EEXIST) && *final(self) == *old(self),
            old(self).entries()[id as int].spec_data() is None && !parent_has_inode(*old(self), id) ==> r == Err::<(), u32>(ENOENT) && *final(self) == *old(self),
            r is Ok ==> saved_in(*old(self), *final(self), id),
            r is Err ==> *final(self) == *old(self),
            old(self).entries()[id as int].spec_data() is None ==> (parent_inode_of(*old(self), id) is Some ==> exists|name: &[u8], res: Result<Arc<I>, u32>|
                    #[trigger] call_ensures(I::symlink, (&*parent_inode_of(*old(self), id)->0, name, link), res) && name@ == old(self).entries()[
                        id as int].spec_name() && recorded(*old(self), *final(self), id, res, r)),
    {
        if self.get(id).is_valid() {
            return Err(EEXIST);
        }
        let dir = match self.parent_inode(id) {
            Ok(d) => d,
            Err(e) => return Err(e),
        };
        let name = copy_bytes(self.get(id).get_name());
        let nm: &[u8] = name.as_slice();
        let res = dir.symlink(nm, link);
        let ghost c0 = *self;
        proof {
            assert(c0 == *old(self));
            assert(parent_inode_of(c0, id) == Some(dir));
        }
        let r = match res {
            Ok(inode) => {
                let _ = self.d_save(id, inode);
                Ok(())
            },
            Err(e) => Err(e),
        };
        proof {
            assert(call_ensures(I::symlink, (&*dir, nm, link), res) && nm@ == c0.entries()[id as int].spec_name()
                && recorded(c0, *self, id, res, r));
            assert(exists|name: &[u8], res2: Result<Arc<I>, u32>|
                #[trigger] call_ensures(I::symlink, (&*parent_inode_of(*old(self), id)->0, name, link), res2) && name@ == old(self).entries()[
                    id as int].spec_name() && recorded(*old(self), *self, id, res2, r));
        }
        r
    }

    /// Make a device node at entry `id`: `EEXIST` when it has an inode,
    /// `ENOENT` when its parent has none; else the parent directory makes
    /// it and the entry records the new inode.
    pub fn mknod(&mut self, id: usize, mode: u32, devid: u32) -> (r: Result<(), u32>)
        requires
            old(self).wf(),
            id < old(self).entries().len(),
        ensures
            final(self).wf(),
            keeps_inodes(*old(self), *final(self)),
            keeps_links(*old(self), *final(self)),
            coherent(*old(self)) ==> coherent(*final(self)),
            old(self).entries()[id as int].spec_data() is Some ==> r == Err::<(), u32>(EEXIST) && *final(self) == *old(self),
            old(self).entries()[id as int].spec_data() is None && !parent_has_inode(*old(self), id) ==> r == Err::<(), u32>(ENOENT) && *final(self) == *old(self),
            r is Ok ==> saved_in(*old(self), *final(self), id),
            r is Err ==> *final(self) == *old(self),
            old(self).entries()[id as int].spec_data() is None ==> (parent_inode_of(*old(self), id) is Some ==> exists|name: &[u8], res: Result<Arc<I>, u32>|
                    #[trigger] call_ensures(I::mknod, (&*parent_inode_of(*old(self), id)->0, name, mode, devid), res) && name@ == old(self).entries()[
                        id as int].spec_name() && recorded(*old(self), *final(self), id, res, r)),
    {
        if self.get(id).is_valid() {
            return Err(EEXIST);
        }
        let dir = match self.parent_inode(id) {
            Ok(d) => d,
            Err(e) => return Err(e),
        };
        let name = copy_bytes(self.get(id).get_name());
        let nm: &[u8] = name.as_slice();
        let res = dir.mknod(nm, mode, devid);
        let ghost c0 = *self;
        proof {
            assert(c0 == *old(self));
            assert(parent_inode_of(c0, id) == Some(dir));
        }
        let r = match res {
            Ok(inode) => {
                let _ = self.d_save(id, inode);
                Ok(())
            },
            Err(e) => Err(e),
        };
        proof {
            assert(call_ensures(I::mknod, (&*dir, nm, mode, devid), res) && nm@ == c0.entries()[id as int].spec_name()
                && recorded(c0, *self, id, res, r));
            assert(exists|name: &[u8], res2: Result<Arc<I>, u32>|
                #[trigger] call_ensures(I::mknod, (&*parent_inode_of(*old(self), id)->0, name, mode, devid), res2) && name@ == old(self).entries()[
                    id as int].spec_name() && recorded(*old(self), *self, id, res2, r));
        }
        r
    }

    /// Make entry `id` a new link to `inode`: `EEXIST` when it has an
    /// inode, `ENOENT` when its parent has none; else the parent directory
    /// links it and the entry records `inode`.
    pub fn linkat(&mut self, id: usize, inode: Arc<I>) -> (r: Result<(), u32>)
        requires
            old(self).wf(),
            id < old(self).entries().len(),
        ensures
            final(self).wf(),
            keeps_inodes(*old(self), *final(self)),
            keeps_links(*old(self), *final(self)),
            coherent(*old(self)) ==> coherent(*final(self)),
            old(self).entries()[id as int].spec_data() is Some ==> r == Err::<(), u32>(EEXIST) && *final(self) == *old(self),
            old(self).entries()[id as int].spec_data() is None && !parent_has_inode(*old(self), id) ==> r == Err::<(), u32>(ENOENT) && *final(self) == *old(self),
            r is Ok ==> saved_in(*old(self), *final(self), id) && (final(self).entries()[id as int].spec_data() matches Some((i2, _)) && i2 == inode),
            r is Err ==> *final(self) == *old(self),
            old(self).entries()[id as int].spec_data() is None ==> (parent_inode_of(*old(self), id) is Some ==> exists|name: &[u8], res: Result<(), u32>|
                    #[trigger] call_ensures(I::linkat, (&*parent_inode_of(*old(self), id)->0, name, &inode), res) && name@ == old(self).entries()[
                        id as int].spec_name() && match res {
                        Ok(()) => r is Ok && saved_in(*old(self), *final(self), id) && holds_inode(
                            *final(self),
                            id,
                            inode,
                        ),
                        Err(e) => r == Err::<(), u32>(e) && *final(self) == *old(self),
                    }),
    {
        if self.get(id).is_valid() {
            return Err(EEXIST);
        }
        let dir = match self.parent_inode(id) {
            Ok(d) => d,
            Err(e) => return Err(e),
        };
        let name = copy_bytes(self.get(id).get_name());
        let nm: &[u8] = name.as_slice();
        let res = dir.linkat(nm, &inode);
        let ghost c0 = *self;
        let ghost given = inode;
        let r = match res {
            Ok(()) => {
                let _ = self.d_save(id, inode);
                Ok(())
            },
            Err(e) => Err(e),
        };
        proof {
            assert(call_ensures(I::linkat, (&*dir, nm, &given), res) && nm@ == c0.entries()[id as int].spec_name());
            assert(exists|name: &[u8], res2: Result<(), u32>|
                #[trigger] call_ensures(I::linkat, (&*parent_inode_of(*old(self), id)->0, name, &inode), res2)
                    && name@ == old(self).entries()[id as int].spec_name() && match res2 {
                    Ok(()) => r is Ok && saved_in(*old(self), *self, id) && holds_inode(*self, id, inode),
                    Err(e) => r == Err::<(), u32>(e) && *self == *old(self),
                });
        }
        r
    }

    /// Remove the name of entry `id` from its parent directory: `ENOENT`
    /// when the entry or its parent has no inode; else what the directory
    /// answers. The cache does not change.
    pub fn unlink(&self, id: usize) -> (r: Result<(), u32>)
        requires
            self.wf(),
            id < self.entries().len(),
        ensures
            self.entries()[id as int].spec_data() is None ==> r == Err::<(), u32>(ENOENT),
            self.entries()[id as int].spec_data() is Some && !parent_has_inode(*self, id) ==> r == Err::<(), u32>(ENOENT),
            self.entries()[id as int].spec_data() is Some ==> (parent_inode_of(*self, id) is Some ==> exists|name: &[u8]|
                    #[trigger] call_ensures(I::unlink, (&*parent_inode_of(*self, id)->0, name), r) && name@ == self.entries()[id as int].spec_name()),
    {
        if !self.get(id).is_valid() {
            return Err(ENOENT);
        }
        let dir = match self.parent_inode(id) {
            Ok(d) => d,
            Err(e) => return Err(e),
        };
        let name = copy_bytes(self.get(id).get_name());
        let nm: &[u8] = name.as_slice();
        let r = dir.unlink(nm);
        assert(parent_inode_of(*self, id) == Some(dir));
        assert(call_ensures(I::unlink, (&*dir, nm), r));
        assert(call_ensures(I::unlink, (&*parent_inode_of(*self, id)->0, nm), r));
        assert(nm@ == self.entries()[id as int].spec_name());
        assert(exists|name: &[u8]|
            #[trigger] call_ensures(I::unlink, (&*parent_inode_of(*self, id)->0, name), r) && name@ == self.entries()[id as int].spec_name());
        r
    }

    /// The target of the symbolic link at entry `id`; `ENOENT` when it has
    /// no inode.
    pub fn readlink(&self, id: usize) -> (r: Result<Vec<u8>, u32>)
        requires
            self.wf(),
            id < self.entries().len(),
        ensures
            self.entries()[id as int].spec_data() is None ==> r == Err::<Vec<u8>, u32>(ENOENT),
            self.entries()[id as int].spec_data() matches Some((i, _)) ==> call_ensures(I::readlink, (&*i,), r),
    {
        match self.get(id).get_inode() {
            Ok(inode) => inode.readlink(),
            Err(e) => Err(e),
        }
    }

    /// The directory entries of entry `id` from `offset` on; `ENOENT` when
    /// it has no inode.
    pub fn readdir(&self, id: usize, offset: usize) -> (r: Result<Vec<(Vec<u8>, u64)>, u32>)
        requires
            self.wf(),
            id < self.entries().len(),
        ensures
            self.entries()[id as int].spec_data() is None ==> r == Err::<Vec<(Vec<u8>, u64)>, u32>(ENOENT),
            self.entries()[id as int].spec_data() matches Some((i, _)) ==> call_ensures(I::readdir, (&*i, offset), r),
    {
        match self.get(id).get_inode() {
            Ok(inode) => inode.readdir(offset),
            Err(e) => Err(e),
        }
    }

    /// Change the permission bits of entry `id`; `ENOENT` when it has no
    /// inode.
    pub fn chmod(&self, id: usize, mode: u32) -> (r: Result<(), u32>)
        requires
            self.wf(),
            id < self.entries().len(),
        ensures
            self.entries()[id as int].spec_data() is None ==> r == Err::<(), u32>(ENOENT),
            self.entries()[id as int].spec_data() matches Some((i, _)) ==> call_ensures(I::chmod, (&*i, mode), r),
    {
        match self.get(id).get_inode() {
            Ok(inode) => inode.chmod(mode),
            Err(e) => Err(e),
        }
    }

    /// Change the owner of entry `id`; `ENOENT` when it has no inode.
    pub fn chown(&self, id: usize, uid: u32, gid: u32) -> (r: Result<(), u32>)
        requires
            self.wf(),
            id < self.entries().len(),
        ensures
            self.entries()[id as int].spec_data() is None ==> r == Err::<(), u32>(ENOENT),
            self.entries()[id as int].spec_data() matches Some((i, _)) ==> call_ensures(I::chown, (&*i, uid, gid), r),
    {
        match self.get(id).get_inode() {
            Ok(inode) => inode.chown(uid, gid),
            Err(e) => Err(e),
        }
    }

    /// A cache holding only the root entry: id 0, its own parent, named
    /// `[root]`, without inode, in no bucket.
    pub fn new() -> (r: DentryCache<I>)
        ensures
            r.wf(),
            r.entries().len() == 1,
            r.entries()[0].spec_parent() == 0,
            r.entries()[0].spec_name() == seq![91u8, 114u8, 111u8, 111u8, 116u8, 93u8],
            r.entries()[0].spec_data() is None,
            forall|b: int| 0 <= b < 256 ==> #[trigger] r.bucket(b).len() == 0,
            coherent(r),
    {
        let name: [u8; 6] = [91u8, 114u8, 111u8, 111u8, 116u8, 93u8];
        let root = Dentry::create(0, &name);
        assert(name@ =~= seq![91u8, 114u8, 111u8, 111u8, 116u8, 93u8]);
        let mut entries: Vec<Dentry<I>> = Vec::new();
        entries.push(root);
        let mut buckets: Vec<Vec<usize>> = Vec::new();
        let mut i: usize = 0;
        while i < DCACHE_SIZE
            invariant
                i <= 256,
                buckets@.len() == i,
                forall|b: int| 0 <= b < i ==> (#[trigger] buckets@[b])@.len() == 0,
            decreases 256 - i,
        {
            buckets.push(Vec::new());
            i = i + 1;
        }
        DentryCache { entries, buckets }
    }

    /// Read up to `len` bytes of entry `id` from `offset` on: `ENOENT`
    /// without an inode; else by the inode's mode as `io_target` says: a
    /// regular file reads its data, a device gives its number for the
    /// caller to read from.
    pub fn read(&self, id: usize, offset: usize, len: usize) -> (r: Result<FileIo<Vec<u8>>, u32>)
        requires
            self.wf(),
            id < self.entries().len(),
        ensures
            self.entries()[id as int].spec_data() is None ==> r == Err::<FileIo<Vec<u8>>, u32>(ENOENT),
            self.entries()[id as int].spec_data() is Some ==> exists|
                m: u32,
                file: Result<Vec<u8>, u32>,
                dev: Result<u32, u32>,
            |
                #![trigger call_ensures(I::mode, (&*inode_of(*self, id)->0,), m), io_outcome(spec_io_target(m, false), file, dev, r)]
                call_ensures(I::mode, (&*inode_of(*self, id)->0,), m) && io_outcome(
                    spec_io_target(m, false),
                    file,
                    dev,
                    r,
                ) && (spec_io_target(m, false) == Ok::<IoTarget, u32>(IoTarget::File) ==> call_ensures(
                    I::read,
                    (&*inode_of(*self, id)->0, offset, len),
                    file,
                )) && (spec_io_target(m, false) matches Ok(t) && t != IoTarget::File ==> call_ensures(
                    I::devid,
                    (&*inode_of(*self, id)->0,),
                    dev,
                )),
    {
        let inode = match self.get(id).get_inode() {
            Ok(i) => i,
            Err(e) => return Err(e),
        };
        let mode = inode.mode();
        let target = io_target(mode, false);
        let ghost mut file_g: Result<Vec<u8>, u32> = Err(0);
        let ghost mut dev_g: Result<u32, u32> = Err(0);
        let r = match target {
            Err(e) => Err(e),
            Ok(IoTarget::File) => {
                let file = inode.read(offset, len);
                proof {
                    file_g = file;
                }
                match file {
                    Ok(v) => Ok(FileIo::Done(v)),
                    Err(e) => Err(e),
                }
            },
            Ok(t) => {
                let dev = inode.devid();
                proof {
                    dev_g = dev;
                }
                match dev {
                    Ok(d) => Ok(FileIo::Device { target: t, devid: d }),
                    Err(e) => Err(e),
                }
            },
        };
        proof {
            assert(inode_of(*self, id) == Some(inode));
            assert(call_ensures(I::mode, (&*inode,), mode));
            assert(io_outcome(spec_io_target(mode, false), file_g, dev_g, r));
            assert(exists|m: u32, file: Result<Vec<u8>, u32>, dev: Result<u32, u32>|
                #![trigger call_ensures(I::mode, (&*inode_of(*self, id)->0,), m), io_outcome(spec_io_target(m, false), file, dev, r)]
                call_ensures(I::mode, (&*inode_of(*self, id)->0,), m) && io_outcome(
                    spec_io_target(m, false),
                    file,
                    dev,
                    r,
                ) && (spec_io_target(m, false) == Ok::<IoTarget, u32>(IoTarget::File) ==> call_ensures(
                    I::read,
                    (&*inode_of(*self, id)->0, offset, len),
                    file,
                )) && (spec_io_target(m, false) matches Ok(t) && t != IoTarget::File ==> call_ensures(
                    I::devid,
                    (&*inode_of(*self, id)->0,),
                    dev,
                )));
        }
        r
    }

    /// Write `data` to entry `id` at `offset`, or at its end when
    /// `append`: `ENOENT` without an inode; else by the inode's mode as
    /// `io_target` says: a regular file is written, a character device
    /// gives its number for the caller to write to.
    pub fn write(&self, id: usize, data: &[u8], offset: usize, append: bool) -> (r: Result<FileIo<usize>, u32>)
        requires
            self.wf(),
            id < self.entries().len(),
        ensures
            self.entries()[id as int].spec_data() is None ==> r == Err::<FileIo<usize>, u32>(ENOENT),
            self.entries()[id as int].spec_data() is Some ==> exists|
                m: u32,
                file: Result<usize, u32>,
                dev: Result<u32, u32>,
            |
                #![trigger call_ensures(I::mode, (&*inode_of(*self, id)->0,), m), io_outcome(spec_io_target(m, true), file, dev, r)]
                call_ensures(I::mode, (&*inode_of(*self, id)->0,), m) && io_outcome(
                    spec_io_target(m, true),
                    file,
                    dev,
                    r,
                ) && (spec_io_target(m, true) == Ok::<IoTarget, u32>(IoTarget::File) ==> call_ensures(
                    I::write,
                    (&*inode_of(*self, id)->0, data, offset, append),
                    file,
                )) && (spec_io_target(m, true) matches Ok(t) && t != IoTarget::File ==> call_ensures(
                    I::devid,
                    (&*inode_of(*self, id)->0,),
                    dev,
                )),
    {
        let inode = match self.get(id).get_inode() {
            Ok(i) => i,
            Err(e) => return Err(e),
        };
        let mode = inode.mode();
        let target = io_target(mode, true);
        let ghost mut file_g: Result<usize, u32> = Err(0);
        let ghost mut dev_g: Result<u32, u32> = Err(0);
        let r = match target {
            Err(e) => Err(e),
            Ok(IoTarget::File) => {
                let file = inode.write(data, offset, append);
                proof {
                    file_g = file;
                }
                match file {
                    Ok(v) => Ok(FileIo::Done(v)),
                    Err(e) => Err(e),
                }
            },
            Ok(t) => {
                let dev = inode.devid();
                proof {
                    dev_g = dev;
                }
                match dev {
                    Ok(d) => Ok(FileIo::Device { target: t, devid: d }),
                    Err(e) => Err(e),
                }
            },
        };
        proof {
            assert(inode_of(*self, id) == Some(inode));
            assert(call_ensures(I::mode, (&*inode,), mode));
            assert(io_outcome(spec_io_target(mode, true), file_g, dev_g, r));
            assert(exists|m: u32, file: Result<usize, u32>, dev: Result<u32, u32>|
                #![trigger call_ensures(I::mode, (&*inode_of(*self, id)->0,), m), io_outcome(spec_io_target(m, true), file, dev, r)]
                call_ensures(I::mode, (&*inode_of(*self, id)->0,), m) && io_outcome(
                    spec_io_target(m, true),
                    file,
                    dev,
                    r,
                ) && (spec_io_target(m, true) == Ok::<IoTarget, u32>(IoTarget::File) ==> call_ensures(
                    I::write,
                    (&*inode_of(*self, id)->0, data, offset, append),
                    file,
                )) && (spec_io_target(m, true) matches Ok(t) && t != IoTarget::File ==> call_ensures(
                    I::devid,
                    (&*inode_of(*self, id)->0,),
                    dev,
                )));
        }
        r
    }

    /// The size of entry `id`'s file, as its inode gives it.
    pub fn size(&self, id: usize) -> (r: usize)
        requires
            self.wf(),
            id < self.entries().len(),
            self.entries()[id as int].spec_data() is Some,
        ensures
            call_ensures(I::size, (&*inode_of(*self, id)->0,), r),
    {
        let inode = match self.get(id).get_inode() {
            Ok(i) => i,
            Err(_) => vstd::pervasive::unreached(),
        };
        let r = inode.size();
        assert(inode_of(*self, id) == Some(inode));
        r
    }

    /// Cut or extend entry `id`'s file to `size` bytes; `ENOENT` without an
    /// inode, else the inode's answer.
    pub fn truncate(&self, id: usize, size: usize) -> (r: Result<(), u32>)
        requires
            self.wf(),
            id < self.entries().len(),
        ensures
            self.entries()[id as int].spec_data() is None ==> r == Err::<(), u32>(ENOENT),
            self.entries()[id as int].spec_data() matches Some((i, _)) ==> call_ensures(I::truncate, (&*i, size), r),
    {
        match self.get(id).get_inode() {
            Ok(inode) => inode.truncate(size),
            Err(e) => Err(e),
        }
    }

    /// Where a read (`write` false) or a write of entry `id` goes, as
    /// `io_target` says for its inode's mode; `ENOENT` when it has no
    /// inode. The caller reads or writes the inode or the device.
    pub fn io_target_of(&self, id: usize, write: bool) -> (r: Result<IoTarget, u32>)
        requires
            self.wf(),
            id < self.entries().len(),
        ensures
            self.entries()[id as int].spec_data() is None ==> r == Err::<IoTarget, u32>(ENOENT),
            self.entries()[id as int].spec_data() matches Some((i, _)) ==> exists|mode: u32|
                #[trigger] call_ensures(I::mode, (&*i,), mode) && r == spec_io_target(mode, write),
    {
        let inode = match self.get(id).get_inode() {
            Ok(i) => i,
            Err(e) => return Err(e),
        };
        let mode = inode.mode();
        let r = io_target(mode, write);
        assert(call_ensures(I::mode, (&*inode,), mode) && r == spec_io_target(mode, write));
        r
    }

    /// How many entries there are.
    pub fn len(&self) -> (r: usize)
        ensures
            r == self.entries().len(),
    {
        self.entries.len()
    }

    /// Entry `id`.
    pub fn get(&self, id: usize) -> (r: &Dentry<I>)
        requires
            id < self.entries().len(),
        ensures
            *r == self.entries()[id as int],
    {
        &self.entries[id]
    }

    /// Keep entry `d`, whose parent is an entry, under a new id; it is not
    /// linked into a bucket.
    pub fn insert(&mut self, d: Dentry<I>) -> (r: usize)
        requires
            old(self).wf(),
            d.spec_parent() < old(self).entries().len(),
            valid_data(d.spec_data()),
            d.spec_hash() == dentry_hash(d.spec_parent(), d.spec_name()),
        ensures
            final(self).wf(),
            keeps_inodes(*old(self), *final(self)),
            keeps_links(*old(self), *final(self)),
            r == old(self).entries().len(),
            final(self).entries() == old(self).entries().push(d),
            forall|b: int| #[trigger] final(self).bucket(b) == old(self).bucket(b),
            coherent(*old(self)) ==> coherent(*final(self)),
    {
        let r = self.entries.len();
        self.entries.push(d);
        proof {
            if coherent(*old(self)) {
                lemma_coherent_frame(*old(self), *self);
            }
            assert forall|b: int, k: int|
                0 <= b < 256 && 0 <= k < self.bucket(b).len() implies #[trigger] self.bucket(b)[k]
                < self.entries().len() by {
                assert(old(self).bucket(b)[k] < old(self).entries().len());
            }
            assert forall|i: int| 0 <= i < self.entries().len() implies (#[trigger] self.entries()[i]).spec_parent()
                < self.entries().len() && valid_data(self.entries()[i].spec_data())
                && self.entries()[i].spec_hash() == dentry_hash(self.entries()[i].spec_parent(), self.entries()[i].spec_name()) by {
                if i < r {
                    assert(self.entries()[i] == old(self).entries()[i]);
                }
            }
        }
        proof {
            lemma_links_kept(*old(self), *self);
        }
        r
    }

    /// Give entry `id` the name `name` under entry `parent`; its inode and
    /// the buckets stay.
    pub fn relocate(&mut self, id: usize, parent: usize, name: Vec<u8>)
        requires
            old(self).wf(),
            id < old(self).entries().len(),
            parent < old(self).entries().len(),
        ensures
            final(self).wf(),
            keeps_inodes(*old(self), *final(self)),
            keeps_links(*old(self), *final(self)),
            final(self).entries().len() == old(self).entries().len(),
            forall|j: int| 0 <= j < old(self).entries().len() && j != id ==> #[trigger] final(self).entries()[j] == old(self).entries()[j],
            final(self).entries()[id as int].spec_parent() == parent,
            final(self).entries()[id as int].spec_name() == name@,
            final(self).entries()[id as int].spec_hash() == dentry_hash(parent, name@),
            final(self).entries()[id as int].spec_data() == old(self).entries()[id as int].spec_data(),
            forall|b: int| #[trigger] final(self).bucket(b) == old(self).bucket(b),
            coherent(*old(self)) && !old(self).linked(id) ==> coherent(*final(self)),
    {
        let h = hash_of(parent, name.as_slice());
        self.entries[id].relocate(parent, name, h);
        proof {
            if coherent(*old(self)) && !old(self).linked(id) {
                let c0 = *old(self);
                assert forall|b: int, k: int| 0 <= b < 256 && 0 <= k < self.bucket(b).len() implies bucket_of(
                    self.entries()[#[trigger] self.bucket(b)[k] as int].spec_hash(),
                ) == b by {
                    let x = c0.bucket(b)[k];
                    if x == id {
                        assert(c0.bucket(b).contains(id));
                    }
                }
                assert forall|b: int, k1: int, k2: int|
                    0 <= b < 256 && 0 <= k1 < self.bucket(b).len() && 0 <= k2 < self.bucket(b).len()
                        && #[trigger] self.bucket(b)[k1] != #[trigger] self.bucket(b)[k2] implies !same_entry(
                    self.entries()[self.bucket(b)[k1] as int],
                    self.entries()[self.bucket(b)[k2] as int],
                ) by {
                    let x = c0.bucket(b)[k1];
                    let y = c0.bucket(b)[k2];
                    if x == id {
                        assert(c0.bucket(b).contains(id));
                    }
                    if y == id {
                        assert(c0.bucket(b).contains(id));
                    }
                    assert(!same_entry(c0.entries()[x as int], c0.entries()[y as int]));
                }
            }
            assert forall|b: int, k: int|
                0 <= b < 256 && 0 <= k < self.bucket(b).len() implies #[trigger] self.bucket(b)[k]
                < self.entries().len() by {
                assert(old(self).bucket(b)[k] < old(self).entries().len());
            }
            assert forall|i: int| 0 <= i < self.entries().len() implies (#[trigger] self.entries()[i]).spec_parent()
                < self.entries().len() && valid_data(self.entries()[i].spec_data())
                && self.entries()[i].spec_hash() == dentry_hash(self.entries()[i].spec_parent(), self.entries()[i].spec_name()) by {
                if i != id {
                    assert(self.entries()[i] == old(self).entries()[i]);
                }
            }
        }
        proof {
            lemma_links_kept(*old(self), *self);
        }
    }

    /// Record `inode`, whose mode is `mode`, in entry `id`, which has none
    /// yet, with the flags the mode calls for: directory, symbolic link, or
    /// regular file.
    pub fn d_save_mode(&mut self, id: usize, inode: Arc<I>, mode: u32) -> (r: Result<(), u32>)
        requires
            old(self).wf(),
            id < old(self).entries().len(),
            old(self).entries()[id as int].spec_data() is None,
        ensures
            final(self).wf(),
            keeps_inodes(*old(self), *final(self)),
            keeps_links(*old(self), *final(self)),
            r is Ok,
            keeps_entries(old(self).entries(), final(self).entries()),
            final(self).entries().len() == old(self).entries().len(),
            forall|j: int| 0 <= j < old(self).entries().len() && j != id ==> #[trigger] final(self).entries()[j] == old(self).entries()[j],
            final(self).entries()[id as int].spec_data() matches Some((i2, f)) && i2 == inode && f
                == spec_flags_for_mode(mode),
            forall|b: int| #[trigger] final(self).bucket(b) == old(self).bucket(b),
            coherent(*old(self)) ==> coherent(*final(self)),
    {
        let f = flags_for_mode(mode);
        if f == D_DIRECTORY {
            let _ = self.entries[id].save_dir(inode);
        } else if f == D_SYMLINK {
            let _ = self.entries[id].save_symlink(inode);
        } else {
            let _ = self.entries[id].save_reg(inode);
        }
        proof {
            assert forall|b: int, k: int|
                0 <= b < 256 && 0 <= k < self.bucket(b).len() implies #[trigger] self.bucket(b)[k]
                < self.entries().len() by {
                assert(old(self).bucket(b)[k] < old(self).entries().len());
            }
            assert forall|i: int| 0 <= i < self.entries().len() implies (#[trigger] self.entries()[i]).spec_parent()
                < self.entries().len() && valid_data(self.entries()[i].spec_data())
                && self.entries()[i].spec_hash() == dentry_hash(self.entries()[i].spec_parent(), self.entries()[i].spec_name()) by {
                if i != id {
                    assert(self.entries()[i] == old(self).entries()[i]);
                }
            }
            if coherent(*old(self)) {
                lemma_coherent_frame(*old(self), *self);
            }
        }
        proof {
            lemma_links_kept(*old(self), *self);
        }
        Ok(())
    }

    /// Record `inode` in entry `id`, which has none yet, with the flags
    /// its mode calls for, as `d_save_mode` does with the inode's mode.
    pub fn d_save(&mut self, id: usize, inode: Arc<I>) -> (r: Result<(), u32>)
        requires
            old(self).wf(),
            id < old(self).entries().len(),
            old(self).entries()[id as int].spec_data() is None,
        ensures
            final(self).wf(),
            keeps_inodes(*old(self), *final(self)),
            keeps_links(*old(self), *final(self)),
            r is Ok,
            keeps_entries(old(self).entries(), final(self).entries()),
            final(self).entries().len() == old(self).entries().len(),
            forall|j: int| 0 <= j < old(self).entries().len() && j != id ==> #[trigger] final(self).entries()[j] == old(self).entries()[j],
            final(self).entries()[id as int].spec_data() matches Some((i2, f)) && i2 == inode && (
            f == D_DIRECTORY || f == D_SYMLINK || f == D_REGULAR),
            forall|b: int| #[trigger] final(self).bucket(b) == old(self).bucket(b),
            coherent(*old(self)) ==> coherent(*final(self)),
            holds_inode(*final(self), id, inode),
    {
        let mode = inode.mode();
        self.d_save_mode(id, inode, mode)
    }
}

/// The cache after entry `id` was linked at the end of its bucket.
pub open spec fn added<I: Inode>(before: DentryCache<I>, after: DentryCache<I>, id: usize) -> bool {
    let b = bucket_of(before.entries()[id as int].spec_hash());
    &&& after.entries() == before.entries()
    &&& after.bucket(b) == before.bucket(b).push(id)
    &&& forall|c: int| 0 <= c < 256 && c != b ==> #[trigger] after.bucket(c) == before.bucket(c)
}

/// The cache after entry `id` left its bucket, wherever it stood there.
pub open spec fn unlinked<I: Inode>(before: DentryCache<I>, after: DentryCache<I>, id: usize) -> bool {
    let b = bucket_of(before.entries()[id as int].spec_hash());
    &&& after.entries() == before.entries()
    &&& forall|y: usize| #[trigger] after.bucket(b).contains(y) <==> before.bucket(b).contains(y) && y != id
    &&& forall|c: int| 0 <= c < 256 && c != b ==> #[trigger] after.bucket(c) == before.bucket(c)
}

/// Whether the bucket of `d` holds an entry with its name under its parent.
pub open spec fn findable<I: Inode>(cache: DentryCache<I>, d: Dentry<I>) -> bool {
    let bk = cache.bucket(bucket_of(d.spec_hash()));
    exists|k: int| 0 <= k < bk.len() && same_entry(cache.entries()[#[trigger] bk[k] as int], d)
}

/// An entry linked by `d_add` is found again by `d_find_fast` for any
/// dentry with its name under its parent.
pub proof fn law_added_is_findable<I: Inode>(
    before: DentryCache<I>,
    after: DentryCache<I>,
    id: usize,
    d: Dentry<I>,
)
    requires
        before.wf(),
        id < before.entries().len(),
        added(before, after, id),
        same_entry(before.entries()[id as int], d),
    ensures
        findable(after, d),
{
    let bk = after.bucket(bucket_of(d.spec_hash()));
    let k = bk.len() - 1;
    assert(bk[k] == id);
}

/// An entry unlinked by `d_remove` is never what `d_find_fast` returns for
/// a dentry with its name under its parent: its bucket no longer holds it.
pub proof fn law_removed_is_not_found<I: Inode>(
    before: DentryCache<I>,
    after: DentryCache<I>,
    id: usize,
    d: Dentry<I>,
)
    requires
        before.wf(),
        id < before.entries().len(),
        unlinked(before, after, id),
        same_entry(before.entries()[id as int], d),
    ensures
        !after.bucket(bucket_of(d.spec_hash())).contains(id),
{
}

/// Open flag: create the file when it is missing.
pub const O_CREAT: u32 = 0o100;
/// Open flag: with `O_CREAT`, fail when the file exists.
pub const O_EXCL: u32 = 0o200;

/// Whether the parent of entry `id` has an inode.
pub open spec fn parent_has_inode<I: Inode>(cache: DentryCache<I>, id: usize) -> bool {
    cache.entries()[cache.entries()[id as int].spec_parent() as int].spec_data() is Some
}

/// The cache after entry `id` got an inode and nothing else changed.
pub open spec fn saved_in<I: Inode>(before: DentryCache<I>, after: DentryCache<I>, id: usize) -> bool {
    &&& keeps_entries(before.entries(), after.entries())
    &&& after.entries().len() == before.entries().len()
    &&& forall|j: int| 0 <= j < before.entries().len() && j != id ==> #[trigger] after.entries()[j] == before.entries()[j]
    &&& after.entries()[id as int].spec_data() is Some
    &&& forall|b: int| #[trigger] after.bucket(b) == before.bucket(b)
}

/// The inode of entry `id`, if it has one.
pub open spec fn inode_of<I: Inode>(c: DentryCache<I>, id: usize) -> Option<Arc<I>> {
    match c.entries()[id as int].spec_data() {
        Some((i, _)) => Some(i),
        None => None,
    }
}

/// The inode of the parent of entry `id`, if it has one.
pub open spec fn parent_inode_of<I: Inode>(c: DentryCache<I>, id: usize) -> Option<Arc<I>> {
    match c.entries()[c.entries()[id as int].spec_parent() as int].spec_data() {
        Some((i, _)) => Some(i),
        None => None,
    }
}

/// Entry `id` of `c` holds `inode` with the flags for a mode that the
/// inode's `mode` returned.
pub open spec fn holds_inode<I: Inode>(c: DentryCache<I>, id: usize, inode: Arc<I>) -> bool {
    c.entries()[id as int].spec_data() matches Some((i2, f)) && i2 == inode && exists|m: u32|
        #[trigger] call_ensures(I::mode, (&*inode,), m) && f == spec_flags_for_mode(m)
}

/// What a parent directory's answer `res` to making entry `id` leads to:
/// its error is returned with the cache as it was; the inode it made is
/// recorded in the entry, and nothing else changes.
pub open spec fn recorded<I: Inode>(
    before: DentryCache<I>,
    after: DentryCache<I>,
    id: usize,
    res: Result<Arc<I>, u32>,
    r: Result<(), u32>,
) -> bool {
    match res {
        Ok(inode) => r is Ok && saved_in(before, after, id) && holds_inode(after, id, inode),
        Err(e) => r == Err::<(), u32>(e) && after == before,
    }
}

/// Whether `after` keeps every entry of `before` as it was, inode
/// included, only adding entries.
pub open spec fn grows<I: Inode>(before: DentryCache<I>, after: DentryCache<I>) -> bool {
    &&& keeps_entries(before.entries(), after.entries())
    &&& forall|i: int|
        0 <= i < before.entries().len() ==> (#[trigger] after.entries()[i]).spec_data()
            == before.entries()[i].spec_data()
    &&& keeps_links(before, after)
}

/// Whether entry `id` is a directory.
pub open spec fn is_dir_entry<I: Inode>(cache: DentryCache<I>, id: usize) -> bool {
    cache.entries()[id as int].spec_data() matches Some((_, f)) && f == D_DIRECTORY
}

/// A copy of `s`.
fn copy_bytes(s: &[u8]) -> (r: Vec<u8>)
    ensures
        r@ == s@,
{
    let mut r: Vec<u8> = Vec::new();
    let mut i: usize = 0;
    while i < s.len()
        invariant
            i <= s@.len(),
            r@ == s@.subrange(0, i as int),
        decreases s@.len() - i,
    {
        r.push(s[i]);
        i = i + 1;
        assert(r@ =~= s@.subrange(0, i as int));
    }
    assert(r@ =~= s@);
    r
}

/// Which flag bits a valid flag value has.
pub(crate) proof fn lemma_flag_bits(f: u64)
    requires
        f == D_DIRECTORY || f == D_SYMLINK || f == D_REGULAR,
    ensures
        (f & D_REGULAR != 0) == (f == D_REGULAR),
        (f & D_DIRECTORY != 0) == (f == D_DIRECTORY),
        (f & D_SYMLINK != 0) == (f == D_SYMLINK),
{
    assert(1u64 & 8 == 0 && 4u64 & 8 == 0 && 8u64 & 8 != 0) by (bit_vector);
    assert(1u64 & 1 != 0 && 4u64 & 1 == 0 && 8u64 & 1 == 0) by (bit_vector);
    assert(1u64 & 4 == 0 && 4u64 & 4 != 0 && 8u64 & 4 == 0) by (bit_vector);
}

/// Growing is transitive.
proof fn lemma_grows_trans<I: Inode>(a: DentryCache<I>, b: DentryCache<I>, c: DentryCache<I>)
    requires
        grows(a, b),
        grows(b, c),
    ensures
        grows(a, c),
{
    assert forall|i: int| 0 <= i < a.entries().len() implies (#[trigger] c.entries()[i]).spec_parent() == a.entries()[i].spec_parent()
        && c.entries()[i].spec_name() == a.entries()[i].spec_name() && c.entries()[i].spec_hash()
        == a.entries()[i].spec_hash() && c.entries()[i].spec_data() == a.entries()[i].spec_data() by {
        assert(b.entries()[i].spec_parent() == a.entries()[i].spec_parent());
        assert(b.entries()[i].spec_data() == a.entries()[i].spec_data());
    }
    assert forall|x: usize| #[trigger] a.linked(x) implies c.linked(x) by {
        assert(b.linked(x));
    }
}

/// Links stay where every bucket keeps what it held.
proof fn lemma_links_kept<I: Inode>(c0: DentryCache<I>, c1: DentryCache<I>)
    requires
        forall|b: int, x: usize| 0 <= b < 256 && #[trigger] c0.bucket(b).contains(x) ==> c1.bucket(b).contains(x),
    ensures
        keeps_links(c0, c1),
{
    assert forall|x: usize| #[trigger] c0.linked(x) implies c1.linked(x) by {
        let b = choose|b: int| 0 <= b < 256 && #[trigger] c0.bucket(b).contains(x);
        assert(c1.bucket(b).contains(x));
    }
}

/// The ids of the entries in the bucket of `dentry`.
pub fn d_iter_for<I: Inode>(cache: &DentryCache<I>, dentry: &Dentry<I>) -> (r: Vec<usize>)
    requires
        cache.wf(),
    ensures
        r@ == cache.bucket(bucket_of(dentry.spec_hash())),
{
    let b = d_hinted(dentry);
    cache.bucket_ids(b)
}

/// Link entry `id` into the bucket of its hash, so that it can be found.
pub fn d_add<I: Inode>(cache: &mut DentryCache<I>, id: usize)
    requires
        old(cache).wf(),
        id < old(cache).entries().len(),
    ensures
        final(cache).wf(),
        keeps_inodes(*old(cache), *final(cache)),
        keeps_links(*old(cache), *final(cache)),
        added(*old(cache), *final(cache), id),
        coherent(*old(cache)) && no_linked_twin(*old(cache), id) ==> coherent(*final(cache)),
{
    let b = d_hinted(cache.get(id));
    cache.bucket_push(b, id);
    proof {
        let c0 = *old(cache);
        let c1 = *cache;
        if coherent(c0) && no_linked_twin(c0, id) {
            let bb = b as int;
            assert forall|c: int, k: int| 0 <= c < 256 && 0 <= k < c1.bucket(c).len() implies bucket_of(
                c1.entries()[#[trigger] c1.bucket(c)[k] as int].spec_hash(),
            ) == c by {
                if c == bb && k == c0.bucket(c).len() {
                } else {
                    assert(c1.bucket(c)[k] == c0.bucket(c)[k]);
                }
            }
            assert forall|c: int, k1: int, k2: int|
                0 <= c < 256 && 0 <= k1 < c1.bucket(c).len() && 0 <= k2 < c1.bucket(c).len()
                    && #[trigger] c1.bucket(c)[k1] != #[trigger] c1.bucket(c)[k2] implies !same_entry(
                c1.entries()[c1.bucket(c)[k1] as int],
                c1.entries()[c1.bucket(c)[k2] as int],
            ) by {
                let n = c0.bucket(c).len() as int;
                if c == bb && k1 == n {
                    assert(c1.bucket(c)[k2] == c0.bucket(c)[k2]);
                } else if c == bb && k2 == n {
                    assert(c1.bucket(c)[k1] == c0.bucket(c)[k1]);
                } else {
                    assert(c1.bucket(c)[k1] == c0.bucket(c)[k1]);
                    assert(c1.bucket(c)[k2] == c0.bucket(c)[k2]);
                }
            }
        }
    }
    proof {
        assert forall|c: int, x: usize| 0 <= c < 256 && #[trigger] old(cache).bucket(c).contains(x) implies cache.bucket(c).contains(x) by {
            let k = choose|k: int| 0 <= k < old(cache).bucket(c).len() && old(cache).bucket(c)[k] == x;
            assert(cache.bucket(c)[k] == x);
        }
        lemma_links_kept(*old(cache), *cache);
    }
}

/// Entry `id` of the bucket of `dentry` that is the same name under the
/// same parent, the first such; `None` when there is none.
pub fn d_find_fast<I: Inode>(cache: &DentryCache<I>, dentry: &Dentry<I>) -> (r: Option<usize>)
    requires
        cache.wf(),
    ensures
        r is Some <==> findable(*cache, *dentry),
        ({
            let bk = cache.bucket(bucket_of(dentry.spec_hash()));
            match r {
                Some(id) => exists|k: int|
                    0 <= k < bk.len() && bk[k] == id && same_entry(cache.entries()[id as int], *dentry)
                        && forall|j: int|
                        0 <= j < k ==> !same_entry(cache.entries()[#[trigger] bk[j] as int], *dentry),
                None => forall|k: int|
                    0 <= k < bk.len() ==> !same_entry(cache.entries()[#[trigger] bk[k] as int], *dentry),
            }
        }),
        coherent(*cache) ==> forall|x: usize|
            #[trigger] cache.linked(x) && same_entry(cache.entries()[x as int], *dentry) ==> r == Some(x),
{
    let ids = d_iter_for(cache, dentry);
    let ghost bk = cache.bucket(bucket_of(dentry.spec_hash()));
    let mut k: usize = 0;
    while k < ids.len()
        invariant
            cache.wf(),
            ids@ == bk,
            bk == cache.bucket(bucket_of(dentry.spec_hash())),
            k <= ids@.len(),
            forall|j: int| 0 <= j < k ==> !same_entry(cache.entries()[#[trigger] bk[j] as int], *dentry),
        decreases ids@.len() - k,
    {
        let id = ids[k];
        proof {
            assert(bk[k as int] < cache.entries().len());
        }
        if cache.get(id).hash_eq(dentry) {
            proof {
                assert(same_entry(cache.entries()[bk[k as int] as int], *dentry));
                if coherent(*cache) {
                    assert forall|x: usize| #[trigger] cache.linked(x) && same_entry(cache.entries()[x as int], *dentry) implies id == x by {
                        lemma_twin_in_bucket(*cache, *dentry, x);
                    }
                }
            }
            return Some(id);
        }
        k = k + 1;
    }
    proof {
        if coherent(*cache) {
            assert forall|x: usize| #[trigger] cache.linked(x) && same_entry(cache.entries()[x as int], *dentry) implies false by {
                lemma_twin_in_bucket(*cache, *dentry, x);
                let kx = choose|kx: int| 0 <= kx < bk.len() && bk[kx] == x;
                assert(!same_entry(cache.entries()[bk[kx] as int], *dentry));
            }
        }
    }
    None
}

/// Unlink entry `id` from its bucket, so that no later `d_find_fast`
/// returns it.
pub fn d_remove<I: Inode>(cache: &mut DentryCache<I>, id: usize)
    requires
        old(cache).wf(),
        id < old(cache).entries().len(),
    ensures
        final(cache).wf(),
        keeps_inodes(*old(cache), *final(cache)),
        unlinked(*old(cache), *final(cache), id),
        coherent(*old(cache)) ==> coherent(*final(cache)),
        coherent(*old(cache)) ==> !final(cache).linked(id),
{
    let b = d_hinted(cache.get(id));
    cache.bucket_remove(b, id);
    proof {
        let c0 = *old(cache);
        let c1 = *cache;
        if coherent(c0) {
            let bb = b as int;
            assert forall|c: int, k: int| 0 <= c < 256 && 0 <= k < c1.bucket(c).len() implies bucket_of(
                c1.entries()[#[trigger] c1.bucket(c)[k] as int].spec_hash(),
            ) == c by {
                let y = c1.bucket(c)[k];
                assert(c1.bucket(c).contains(y));
                assert(c0.bucket(c).contains(y));
                lemma_own_bucket(c0, y, c);
            }
            assert forall|c: int, k1: int, k2: int|
                0 <= c < 256 && 0 <= k1 < c1.bucket(c).len() && 0 <= k2 < c1.bucket(c).len()
                    && #[trigger] c1.bucket(c)[k1] != #[trigger] c1.bucket(c)[k2] implies !same_entry(
                c1.entries()[c1.bucket(c)[k1] as int],
                c1.entries()[c1.bucket(c)[k2] as int],
            ) by {
                let x = c1.bucket(c)[k1];
                let y = c1.bucket(c)[k2];
                assert(c1.bucket(c).contains(x));
                assert(c1.bucket(c).contains(y));
                assert(c0.bucket(c).contains(x));
                assert(c0.bucket(c).contains(y));
                lemma_linked_distinct(c0, x, y);
            }
            if c1.linked(id) {
                let c = choose|c: int| 0 <= c < 256 && #[trigger] c1.bucket(c).contains(id);
                assert(c0.bucket(c).contains(id));
                lemma_own_bucket(c0, id, c);
            }
        }
    }
}

/// The cache after entries `a` and `b` swapped their names and parents:
/// each keeps its inode, is linked in the bucket of its new hash and no
/// longer in that of its old one; the other buckets, and the other entries
/// everywhere, stay as they were.
pub open spec fn exchanged<I: Inode>(before: DentryCache<I>, after: DentryCache<I>, a: usize, b: usize) -> bool {
    let ea = before.entries()[a as int];
    let eb = before.entries()[b as int];
    &&& after.entries().len() == before.entries().len()
    &&& forall|j: int|
        0 <= j < before.entries().len() && j != a && j != b ==> #[trigger] after.entries()[j]
            == before.entries()[j]
    &&& after.entries()[a as int].spec_parent() == eb.spec_parent()
    &&& after.entries()[a as int].spec_name() == eb.spec_name()
    &&& after.entries()[a as int].spec_hash() == eb.spec_hash()
    &&& after.entries()[a as int].spec_data() == ea.spec_data()
    &&& after.entries()[b as int].spec_parent() == ea.spec_parent()
    &&& after.entries()[b as int].spec_name() == ea.spec_name()
    &&& after.entries()[b as int].spec_hash() == ea.spec_hash()
    &&& after.entries()[b as int].spec_data() == eb.spec_data()
    &&& after.bucket(bucket_of(eb.spec_hash())).contains(a)
    &&& after.bucket(bucket_of(ea.spec_hash())).contains(b)
    &&& bucket_of(ea.spec_hash()) != bucket_of(eb.spec_hash()) ==> !after.bucket(
        bucket_of(ea.spec_hash()),
    ).contains(a) && !after.bucket(bucket_of(eb.spec_hash())).contains(b)
    &&& forall|c: int, y: usize|
        0 <= c < 256 && (y != a && y != b || c != bucket_of(ea.spec_hash()) && c != bucket_of(
            eb.spec_hash(),
        )) ==> (#[trigger] after.bucket(c).contains(y) <==> before.bucket(c).contains(y))
}

/// Swap the names and parents of entries `a` and `b`, as a rename that
/// exchanges two files does: both leave their buckets, take each other's
/// place and are linked again. Nothing happens when they are the same.
pub fn d_exchange<I: Inode>(cache: &mut DentryCache<I>, a: usize, b: usize)
    requires
        old(cache).wf(),
        a < old(cache).entries().len(),
        b < old(cache).entries().len(),
    ensures
        final(cache).wf(),
        keeps_inodes(*old(cache), *final(cache)),
        keeps_links(*old(cache), *final(cache)),
        a == b ==> *final(cache) == *old(cache),
        a != b ==> exchanged(*old(cache), *final(cache), a, b),
        coherent(*old(cache)) && old(cache).linked(a) && old(cache).linked(b) ==> coherent(*final(cache)),
{
    if a == b {
        return;
    }
    let ghost c0 = *cache;
    d_remove(cache, a);
    let ghost c1 = *cache;
    d_remove(cache, b);
    let ghost c2 = *cache;
    let pa = cache.get(a).parent_addr();
    let na = copy_bytes(cache.get(a).get_name());
    let pb = cache.get(b).parent_addr();
    let nb = copy_bytes(cache.get(b).get_name());
    cache.relocate(a, pb, nb);
    let ghost c2b = *cache;
    cache.relocate(b, pa, na);
    let ghost c3 = *cache;
    proof {
        if coherent(c0) && c0.linked(a) && c0.linked(b) {
            lemma_exchange_relinks(c0, c1, c2, c2b, c3, a, b);
        }
    }
    d_add(cache, a);
    let ghost c4 = *cache;
    proof {
        if coherent(c0) && c0.linked(a) && c0.linked(b) {
            lemma_exchange_second_link(c0, c3, c4, a, b);
        }
    }
    d_add(cache, b);
    proof {
        let ea = c0.entries()[a as int];
        let eb = c0.entries()[b as int];
        let ba = bucket_of(ea.spec_hash());
        let bb = bucket_of(eb.spec_hash());
        assert(c1.entries() == c0.entries());
        assert(c2.entries() == c0.entries());
        assert(c3.entries()[a as int].spec_hash() == eb.spec_hash());
        assert(c3.entries()[b as int].spec_hash() == ea.spec_hash());
        assert(c4.entries() == c3.entries());
        assert forall|c: int, y: usize| 0 <= c < 256 implies #[trigger] cache.bucket(c).contains(y) == ((c0.bucket(c).contains(y) && !(c == ba && y == a) && !(c == bb && y == b)) || (c == bb && y == a) || (c == ba && y == b)) by {
            let s1 = c1.bucket(c).contains(y) == (c0.bucket(c).contains(y) && !(c == ba && y == a));
            if c == ba {
                assert(c1.bucket(c).contains(y) <==> c0.bucket(c).contains(y) && y != a);
            } else {
                assert(c1.bucket(c) == c0.bucket(c));
            }
            assert(s1);
            let s2 = c2.bucket(c).contains(y) == (c1.bucket(c).contains(y) && !(c == bb && y == b));
            if c == bb {
                assert(c2.bucket(c).contains(y) <==> c1.bucket(c).contains(y) && y != b);
            } else {
                assert(c2.bucket(c) == c1.bucket(c));
            }
            assert(s2);
            assert(c3.bucket(c) == c2.bucket(c));
            let s4 = c4.bucket(c).contains(y) == (c3.bucket(c).contains(y) || (c == bb && y == a));
            if c == bb {
                assert(c4.bucket(c) == c3.bucket(c).push(a));
                vstd::seq_lib::lemma_seq_contains_after_push(c3.bucket(c), a, y);
            } else {
                assert(c4.bucket(c) == c3.bucket(c));
            }
            assert(s4);
            let s5 = cache.bucket(c).contains(y) == (c4.bucket(c).contains(y) || (c == ba && y == b));
            if c == ba {
                assert(cache.bucket(c) == c4.bucket(c).push(b));
                vstd::seq_lib::lemma_seq_contains_after_push(c4.bucket(c), b, y);
            } else {
                assert(cache.bucket(c) == c4.bucket(c));
            }
            assert(s5);
        }
        assert(cache.bucket(bb).contains(a)) by {
            assert(0 <= bb < 256);
        }
        assert(cache.bucket(ba).contains(b)) by {
            assert(0 <= ba < 256);
        }
        assert forall|x: usize| #[trigger] c0.linked(x) implies cache.linked(x) by {
            if x != a && x != b {
                let c = choose|c: int| 0 <= c < 256 && #[trigger] c0.bucket(c).contains(x);
                assert(cache.bucket(c).contains(x));
            }
        }
    }
}

/// The middle of an exchange: with both entries unlinked and moved to each
/// other's place, the cache is still coherent and `a` has no linked twin.
proof fn lemma_exchange_relinks<I: Inode>(
    c0: DentryCache<I>,
    c1: DentryCache<I>,
    c2: DentryCache<I>,
    c2b: DentryCache<I>,
    c3: DentryCache<I>,
    a: usize,
    b: usize,
)
    requires
        c0.wf(),
        a < c0.entries().len(),
        b < c0.entries().len(),
        a != b,
        coherent(c0),
        c0.linked(a),
        c0.linked(b),
        unlinked(c0, c1, a),
        coherent(c1),
        !c1.linked(a),
        unlinked(c1, c2, b),
        coherent(c2),
        !c2.linked(b),
        c2.wf(),
        c2b.entries().len() == c2.entries().len(),
        forall|j: int| 0 <= j < c2.entries().len() && j != a ==> #[trigger] c2b.entries()[j] == c2.entries()[j],
        c2b.entries()[a as int].spec_parent() == c0.entries()[b as int].spec_parent(),
        c2b.entries()[a as int].spec_name() == c0.entries()[b as int].spec_name(),
        c2b.entries()[a as int].spec_hash() == c0.entries()[b as int].spec_hash(),
        forall|x: int| #[trigger] c2b.bucket(x) == c2.bucket(x),
        coherent(c2) && !c2.linked(a) ==> coherent(c2b),
        c3.entries().len() == c2b.entries().len(),
        forall|j: int| 0 <= j < c2b.entries().len() && j != b ==> #[trigger] c3.entries()[j] == c2b.entries()[j],
        c3.entries()[b as int].spec_parent() == c0.entries()[a as int].spec_parent(),
        c3.entries()[b as int].spec_name() == c0.entries()[a as int].spec_name(),
        c3.entries()[b as int].spec_hash() == c0.entries()[a as int].spec_hash(),
        forall|x: int| #[trigger] c3.bucket(x) == c2b.bucket(x),
        coherent(c2b) && !c2b.linked(b) ==> coherent(c3),
    ensures
        coherent(c3),
        !c3.linked(a),
        !c3.linked(b),
        forall|y: usize| y != a && y != b && #[trigger] c3.linked(y) ==> c0.linked(y),
        no_linked_twin(c3, a),
{
    let ba = bucket_of(c0.entries()[a as int].spec_hash());
    let bb = bucket_of(c1.entries()[b as int].spec_hash());
    assert forall|y: usize| #[trigger] c3.linked(y) implies c2.linked(y) && c1.linked(y) && c0.linked(y) by {
        let c = choose|c: int| 0 <= c < 256 && #[trigger] c3.bucket(c).contains(y);
        assert(c2b.bucket(c) == c2.bucket(c));
        assert(c2.bucket(c).contains(y));
        if c == bb {
            assert(c1.bucket(c).contains(y));
        } else {
            assert(c1.bucket(c) == c2.bucket(c));
        }
        assert(c1.bucket(c).contains(y));
        if c == ba {
            assert(c0.bucket(c).contains(y));
        } else {
            assert(c0.bucket(c) == c1.bucket(c));
        }
        assert(c0.bucket(c).contains(y));
    }
    assert(!c2.linked(a)) by {
        if c2.linked(a) {
            let c = choose|c: int| 0 <= c < 256 && #[trigger] c2.bucket(c).contains(a);
            if c == bb {
                assert(c1.bucket(c).contains(a));
            } else {
                assert(c1.bucket(c) == c2.bucket(c));
            }
        }
    }
    assert(coherent(c2b));
    assert(!c2b.linked(b)) by {
        if c2b.linked(b) {
            let c = choose|c: int| 0 <= c < 256 && #[trigger] c2b.bucket(c).contains(b);
            assert(c2.bucket(c) == c2b.bucket(c));
        }
    }
    assert(coherent(c3));
    assert(c2.entries() == c0.entries());
    assert forall|c: int, k: int|
        0 <= c < 256 && 0 <= k < c3.bucket(c).len() && #[trigger] c3.bucket(c)[k] != a implies !same_entry(
        c3.entries()[c3.bucket(c)[k] as int],
        c3.entries()[a as int],
    ) by {
        let y = c3.bucket(c)[k];
        assert(c3.bucket(c).contains(y));
        assert(c3.linked(y));
        assert(y != b);
        assert(y < c0.entries().len()) by {
            assert(c0.linked(y));
            let c5 = choose|c5: int| 0 <= c5 < 256 && #[trigger] c0.bucket(c5).contains(y);
            let k5 = choose|k5: int| 0 <= k5 < c0.bucket(c5).len() && c0.bucket(c5)[k5] == y;
            assert(c0.bucket(c5)[k5] < c0.entries().len());
        }
        assert(c3.entries()[y as int] == c0.entries()[y as int]);
        lemma_linked_distinct(c0, y, b);
    }
}

/// The second half of an exchange: after `a` is linked in its new place,
/// `b` has no linked twin.
proof fn lemma_exchange_second_link<I: Inode>(
    c0: DentryCache<I>,
    c3: DentryCache<I>,
    c4: DentryCache<I>,
    a: usize,
    b: usize,
)
    requires
        c0.wf(),
        a < c0.entries().len(),
        b < c0.entries().len(),
        a != b,
        coherent(c0),
        c0.linked(a),
        c0.linked(b),
        c3.entries().len() == c0.entries().len(),
        forall|j: int| 0 <= j < c0.entries().len() && j != a && j != b ==> #[trigger] c3.entries()[j] == c0.entries()[j],
        c3.entries()[a as int].spec_parent() == c0.entries()[b as int].spec_parent(),
        c3.entries()[a as int].spec_name() == c0.entries()[b as int].spec_name(),
        c3.entries()[a as int].spec_hash() == c0.entries()[b as int].spec_hash(),
        c3.entries()[b as int].spec_parent() == c0.entries()[a as int].spec_parent(),
        c3.entries()[b as int].spec_name() == c0.entries()[a as int].spec_name(),
        c3.entries()[b as int].spec_hash() == c0.entries()[a as int].spec_hash(),
        !c3.linked(b),
        forall|y: usize| y != a && y != b && #[trigger] c3.linked(y) ==> c0.linked(y),
        added(c3, c4, a),
    ensures
        no_linked_twin(c4, b),
{
    let bn = bucket_of(c3.entries()[a as int].spec_hash());
    assert forall|c: int, k: int|
        0 <= c < 256 && 0 <= k < c4.bucket(c).len() && #[trigger] c4.bucket(c)[k] != b implies !same_entry(
        c4.entries()[c4.bucket(c)[k] as int],
        c4.entries()[b as int],
    ) by {
        let y = c4.bucket(c)[k];
        if y == a {
            lemma_linked_distinct(c0, a, b);
        } else {
            if c == bn {
                assert(c4.bucket(c) == c3.bucket(c).push(a));
                assert(k < c3.bucket(c).len());
                assert(c3.bucket(c)[k] == y);
            } else {
                assert(c4.bucket(c) == c3.bucket(c));
            }
            assert(c3.bucket(c).contains(y));
            assert(c3.linked(y));
            assert(c0.linked(y));
            assert(y < c0.entries().len()) by {
                let c5 = choose|c5: int| 0 <= c5 < 256 && #[trigger] c0.bucket(c5).contains(y);
                let k5 = choose|k5: int| 0 <= k5 < c0.bucket(c5).len() && c0.bucket(c5)[k5] == y;
                assert(c0.bucket(c5)[k5] < c0.entries().len());
            }
            lemma_linked_distinct(c0, y, a);
        }
    }
}

/// In a coherent cache a linked entry is found by name: `d_find_fast`
/// with any dentry of its name under its parent returns it. With
/// `keeps_links` on every operation but `d_remove` and `d_replace`, an
/// entry linked by `d_add` stays found until one of those unlinks it.
pub proof fn law_linked_is_found<I: Inode>(c: DentryCache<I>, x: usize, d: Dentry<I>)
    requires
        c.wf(),
        coherent(c),
        c.linked(x),
        same_entry(c.entries()[x as int], d),
    ensures
        findable(c, d),
{
    lemma_twin_in_bucket(c, d, x);
    let bk = c.bucket(bucket_of(d.spec_hash()));
    let k = choose|k: int| 0 <= k < bk.len() && bk[k] == x;
    assert(same_entry(c.entries()[bk[k] as int], d));
}

/// The cache after entry `new_id` took the place of entry `old_id` in the
/// bucket of `old_id`, wherever it stood there; nothing else changed.
pub open spec fn replaced<I: Inode>(before: DentryCache<I>, after: DentryCache<I>, old_id: usize, new_id: usize) -> bool {
    let b = bucket_of(before.entries()[old_id as int].spec_hash());
    &&& after.entries() == before.entries()
    &&& after.bucket(b).len() == before.bucket(b).len()
    &&& forall|k: int|
        0 <= k < before.bucket(b).len() ==> #[trigger] after.bucket(b)[k] == if before.bucket(b)[k] == old_id {
            new_id
        } else {
            before.bucket(b)[k]
        }
    &&& forall|c: int| 0 <= c < 256 && c != b ==> #[trigger] after.bucket(c) == before.bucket(c)
}

/// Once an entry has an inode it keeps it: along any run of cache
/// operations, each of which keeps inodes (every operation of this module
/// does), entry `id` ends with the inode and flags it had at the start.
pub proof fn law_entry_stays_valid<I: Inode>(trace: Seq<DentryCache<I>>, id: usize)
    requires
        trace.len() > 0,
        forall|k: int| 0 <= k < trace.len() - 1 ==> keeps_inodes(#[trigger] trace[k], trace[k + 1]),
        id < trace[0].entries().len(),
        trace[0].entries()[id as int].spec_data() is Some,
    ensures
        id < trace.last().entries().len(),
        trace.last().entries()[id as int].spec_data() == trace[0].entries()[id as int].spec_data(),
    decreases trace.len(),
{
    if trace.len() > 1 {
        let t = trace.drop_last();
        assert forall|k: int| 0 <= k < t.len() - 1 implies keeps_inodes(#[trigger] t[k], t[k + 1]) by {
            assert(t[k] == trace[k] && t[k + 1] == trace[k + 1]);
        }
        law_entry_stays_valid(t, id);
        let n = trace.len() - 2;
        assert(keeps_inodes(trace[n], trace[n + 1]));
        assert(t.last() == trace[n]);
    }
}

/// `..` at the root stays there: from a directory entry with the name and
/// parent of the root, a walk that starts with `..` goes on from the same
/// entry.
pub proof fn law_dotdot_at_root_stays<I: Inode>(
    c: DentryCache<I>,
    root: usize,
    cur: usize,
    rest: Seq<PathComponent>,
    follow: bool,
)
    requires
        is_dir_entry(c, cur),
        same_entry(c.entries()[cur as int], c.entries()[root as int]),
    ensures
        walk(c, root, cur, seq![PathComponent::Parent] + rest, follow) == walk(c, root, cur, rest, follow),
{
    let comps = seq![PathComponent::Parent] + rest;
    assert(comps[0] == PathComponent::Parent);
    assert(comps.drop_first() =~= rest);
    assert(resolved(c, cur) == Some(Ok::<usize, u32>(cur)));
}

/// After `d_replace` of a linked entry by an unlinked one with the same
/// name and parent in a coherent cache, the new entry is linked, the old
/// one is not, the cache stays coherent, and a dentry of that name under
/// that parent finds the new entry (which `d_find_fast` then returns).
pub proof fn law_replaced_is_found<I: Inode>(
    before: DentryCache<I>,
    after: DentryCache<I>,
    old_id: usize,
    new_id: usize,
    q: Dentry<I>,
)
    requires
        before.wf(),
        after.wf(),
        coherent(before),
        old_id < before.entries().len(),
        new_id < before.entries().len(),
        before.linked(old_id),
        !before.linked(new_id),
        same_entry(before.entries()[old_id as int], before.entries()[new_id as int]),
        replaced(before, after, old_id, new_id),
        coherent(after),
        same_entry(after.entries()[new_id as int], q),
    ensures
        after.linked(new_id),
        !after.linked(old_id),
        findable(after, q),
{
    let b = bucket_of(before.entries()[old_id as int].spec_hash());
    let c0 = choose|c: int| 0 <= c < 256 && #[trigger] before.bucket(c).contains(old_id);
    lemma_own_bucket(before, old_id, c0);
    let k = choose|k: int| 0 <= k < before.bucket(b).len() && before.bucket(b)[k] == old_id;
    assert(after.bucket(b)[k] == new_id);
    assert(after.bucket(b).contains(new_id));
    assert(0 <= b < 256);
    assert(after.linked(new_id));
    if after.linked(old_id) {
        let c = choose|c: int| 0 <= c < 256 && #[trigger] after.bucket(c).contains(old_id);
        let j = choose|j: int| 0 <= j < after.bucket(c).len() && after.bucket(c)[j] == old_id;
        if c == b {
            assert(after.bucket(b)[j] == old_id);
            if before.bucket(b)[j] == old_id {
                assert(new_id != old_id) by {
                    if new_id == old_id {
                        assert(before.linked(new_id));
                    }
                }
            }
        } else {
            assert(before.bucket(c)[j] == old_id);
            assert(before.bucket(c).contains(old_id));
            lemma_own_bucket(before, old_id, c);
        }
    }
    law_linked_is_found(after, new_id, q);
}

/// After `d_exchange`, each entry is found under the name and parent the
/// other had: a dentry naming `b`'s old place finds `a`, and the other way
/// round.
pub proof fn law_exchanged_are_found<I: Inode>(
    before: DentryCache<I>,
    after: DentryCache<I>,
    a: usize,
    b: usize,
    d: Dentry<I>,
)
    requires
        before.wf(),
        a < before.entries().len(),
        b < before.entries().len(),
        a != b,
        exchanged(before, after, a, b),
        same_entry(before.entries()[b as int], d) || same_entry(before.entries()[a as int], d),
    ensures
        findable(after, d),
{
    let ea = before.entries()[a as int];
    let eb = before.entries()[b as int];
    let bk = after.bucket(bucket_of(d.spec_hash()));
    if same_entry(eb, d) {
        assert(bk.contains(a));
        let k = choose|k: int| 0 <= k < bk.len() && bk[k] == a;
        assert(same_entry(after.entries()[bk[k] as int], d));
    } else {
        assert(bk.contains(b));
        let k = choose|k: int| 0 <= k < bk.len() && bk[k] == b;
        assert(same_entry(after.entries()[bk[k] as int], d));
    }
}

/// Put entry `new_id` in the place of entry `old_id` in the bucket of `old_id`.
pub fn d_replace<I: Inode>(cache: &mut DentryCache<I>, old_id: usize, new_id: usize)
    requires
        old(cache).wf(),
        old_id < old(cache).entries().len(),
        new_id < old(cache).entries().len(),
    ensures
        final(cache).wf(),
        keeps_inodes(*old(cache), *final(cache)),
        final(cache).entries() == old(cache).entries(),
        ({
            let b = bucket_of(old(cache).entries()[old_id as int].spec_hash());
            &&& final(cache).bucket(b).len() == old(cache).bucket(b).len()
            &&& forall|k: int|
                0 <= k < old(cache).bucket(b).len() ==> #[trigger] final(cache).bucket(b)[k] == if old(cache).bucket(b)[k] == old_id {
                    new_id
                } else {
                    old(cache).bucket(b)[k]
                }
        }),
        forall|b: int|
            0 <= b < 256 && b != bucket_of(old(cache).entries()[old_id as int].spec_hash()) ==> #[trigger] final(cache).bucket(b) == old(cache).bucket(b),
        coherent(*old(cache)) && same_entry(old(cache).entries()[old_id as int], old(cache).entries()[new_id as int])
            && !old(cache).linked(new_id) ==> coherent(*final(cache)),
        replaced(*old(cache), *final(cache), old_id, new_id),
{
    let b = d_hinted(cache.get(old_id));
    cache.bucket_replace(b, old_id, new_id);
    proof {
        let c0 = *old(cache);
        let c1 = *cache;
        if coherent(c0) && same_entry(c0.entries()[old_id as int], c0.entries()[new_id as int]) && !c0.linked(new_id) {
            let bb = b as int;
            assert forall|c: int, k: int| 0 <= c < 256 && 0 <= k < c1.bucket(c).len() implies bucket_of(
                c1.entries()[#[trigger] c1.bucket(c)[k] as int].spec_hash(),
            ) == c by {
                if c == bb {
                    assert(bucket_of(c0.entries()[c0.bucket(c)[k] as int].spec_hash()) == c);
                } else {
                    assert(c1.bucket(c)[k] == c0.bucket(c)[k]);
                }
            }
            assert forall|c: int, k1: int, k2: int|
                0 <= c < 256 && 0 <= k1 < c1.bucket(c).len() && 0 <= k2 < c1.bucket(c).len()
                    && #[trigger] c1.bucket(c)[k1] != #[trigger] c1.bucket(c)[k2] implies !same_entry(
                c1.entries()[c1.bucket(c)[k1] as int],
                c1.entries()[c1.bucket(c)[k2] as int],
            ) by {
                if c == bb {
                    let x = c0.bucket(c)[k1];
                    let y = c0.bucket(c)[k2];
                    if x != new_id {
                        if y == new_id {
                            assert(c0.bucket(c).contains(new_id));
                        }
                    } else {
                        assert(c0.bucket(c).contains(new_id));
                    }
                    if y == new_id {
                        assert(c0.bucket(c).contains(new_id));
                    }
                    assert(x != y);
                    assert(!same_entry(c0.entries()[x as int], c0.entries()[y as int]));
                } else {
                    assert(c1.bucket(c)[k1] == c0.bucket(c)[k1]);
                    assert(c1.bucket(c)[k2] == c0.bucket(c)[k2]);
                }
            }
        }
    }
}

/// Record in entry `id`, which has no inode yet, what a lookup of its name
/// in its parent directory gave: the inode found is saved as `d_save` does;
/// no inode, or an error, leaves the cache as it was.
pub fn d_save_found<I: Inode>(cache: &mut DentryCache<I>, id: usize, found: Result<Option<Arc<I>>, u32>)
    requires
        old(cache).wf(),
        id < old(cache).entries().len(),
        old(cache).entries()[id as int].spec_data() is None,
    ensures
        final(cache).wf(),
        keeps_inodes(*old(cache), *final(cache)),
        keeps_links(*old(cache), *final(cache)),
        keeps_entries(old(cache).entries(), final(cache).entries()),
        final(cache).entries().len() == old(cache).entries().len(),
        forall|j: int|
            0 <= j < old(cache).entries().len() && j != id ==> #[trigger] final(cache).entries()[j]
                == old(cache).entries()[j],
        forall|b: int| #[trigger] final(cache).bucket(b) == old(cache).bucket(b),
        coherent(*old(cache)) ==> coherent(*final(cache)),
        match found {
            Ok(Some(inode)) => holds_inode(*final(cache), id, inode),
            _ => final(cache).entries() == old(cache).entries(),
        },
{
    match found {
        Ok(Some(inode)) => {
            let _ = cache.d_save(id, inode);
        },
        _ => {},
    }
}

/// Ask the parent directory of entry `id`, which has no inode yet, for
/// the inode of its name, and record it as `d_save_found` does. When the
/// parent has no inode nothing changes; otherwise the entry either stays
/// as it was or holds an inode with the flags of a directory, a symbolic
/// link or a regular file, as the file system's lookup decides.
pub fn d_try_revalidate<I: Inode>(cache: &mut DentryCache<I>, id: usize)
    requires
        old(cache).wf(),
        id < old(cache).entries().len(),
        old(cache).entries()[id as int].spec_data() is None,
    ensures
        final(cache).wf(),
        keeps_inodes(*old(cache), *final(cache)),
        keeps_links(*old(cache), *final(cache)),
        keeps_entries(old(cache).entries(), final(cache).entries()),
        final(cache).entries().len() == old(cache).entries().len(),
        forall|j: int|
            0 <= j < old(cache).entries().len() && j != id ==> #[trigger] final(cache).entries()[j]
                == old(cache).entries()[j],
        forall|b: int| #[trigger] final(cache).bucket(b) == old(cache).bucket(b),
        coherent(*old(cache)) ==> coherent(*final(cache)),
        old(cache).entries()[old(cache).entries()[id as int].spec_parent() as int].spec_data() is None
            ==> final(cache).entries() == old(cache).entries(),
        final(cache).entries()[id as int].spec_data() is None ==> final(cache).entries() == old(
            cache,
        ).entries(),
        final(cache).entries()[id as int].spec_data() matches Some((_, f)) ==> f == D_DIRECTORY || f
            == D_SYMLINK || f == D_REGULAR,
        parent_inode_of(*old(cache), id) is Some ==> exists|
            name: &[u8],
            res: Result<Option<Arc<I>>, u32>,
        |
            #[trigger] call_ensures(I::lookup, (&*parent_inode_of(*old(cache), id)->0, name), res) && name@
                == old(cache).entries()[id as int].spec_name() && match res {
                Ok(Some(i)) => holds_inode(*final(cache), id, i),
                _ => final(cache).entries() == old(cache).entries(),
            },
{
    let parent = cache.get(id).parent_addr();
    let name = copy_bytes(cache.get(id).get_name());
    let dir = match cache.get(parent).get_inode() {
        Ok(i) => i,
        Err(_) => return ,
    };
    let nm: &[u8] = name.as_slice();
    let found = dir.lookup(nm);
    proof {
        assert(parent_inode_of(*old(cache), id) == Some(dir));
        assert(call_ensures(I::lookup, (&*dir, nm), found));
    }
    let ghost f = found;
    d_save_found(cache, id, found);
    proof {
        if cache.entries()[id as int].spec_data() is None {
            assert(cache.entries() =~= old(cache).entries()) by {
                assert forall|j: int| 0 <= j < cache.entries().len() implies cache.entries()[j]
                    == old(cache).entries()[j] by {
                    if j == id {
                        assert(!(f matches Ok(Some(_))));
                    }
                }
            }
        }
        assert(call_ensures(I::lookup, (&*parent_inode_of(*old(cache), id)->0, nm), f));
        assert(nm@ == old(cache).entries()[id as int].spec_name());
        assert(match f {
            Ok(Some(i)) => holds_inode(*cache, id, i),
            _ => cache.entries() == old(cache).entries(),
        });
        assert(exists|name: &[u8], res: Result<Option<Arc<I>>, u32>|
            #[trigger] call_ensures(I::lookup, (&*parent_inode_of(*old(cache), id)->0, name), res) && name@
                == old(cache).entries()[id as int].spec_name() && match res {
                Ok(Some(i)) => holds_inode(*cache, id, i),
                _ => cache.entries() == old(cache).entries(),
            });
    }
}

/// The bucket of `dentry`: the low bits of its hash.
pub fn d_hinted<I: Inode>(dentry: &Dentry<I>) -> (r: usize)
    ensures
        r == bucket_of(dentry.spec_hash()),
        r < 256,
{
    let h = dentry.hash();
    assert(h & 0xff == h % 256) by (bit_vector);
    (h & 0xff) as usize
}

} // verus!
