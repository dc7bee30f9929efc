//! Mounts: the registered file system types, the mount table, and the
//! mount options as `/proc/mounts` shows them.
use crate::errno::{EEXIST, ENODEV, ENOENT, ENOTDIR};
use crate::vfs::dcache::{
    bucket_of, coherent, d_add, d_replace, grows, keeps_inodes, keeps_links, is_dir_entry, no_linked_twin, same_entry, valid_data,
    DentryCache,
};
use crate::vfs::dentry::{Dentry, D_DIRECTORY, D_REGULAR, D_SYMLINK};
use crate::vfs::inode::Inode;
use crate::vfs::path::Path;
use crate::vfs::FsContext;
use std::sync::Arc;
use vstd::prelude::*;

verus! {

pub const MS_RDONLY: u64 = 1;
pub const MS_NOSUID: u64 = 2;
pub const MS_NODEV: u64 = 4;
pub const MS_NOEXEC: u64 = 8;
pub const MS_NOATIME: u64 = 1024;
pub const MS_RELATIME: u64 = 2097152;
pub const MS_STRICTATIME: u64 = 16777216;
pub const MS_LAZYTIME: u64 = 33554432;

/// The flags a mount is made with: relative atime unless `MS_NOATIME` is
/// given, and neither with `MS_STRICTATIME`.
pub open spec fn spec_mount_flags(flags: u64) -> u64 {
    let f = if flags & MS_NOATIME == 0 {
        flags | MS_RELATIME
    } else {
        flags
    };
    if f & MS_STRICTATIME != 0 {
        f & !(MS_RELATIME | MS_NOATIME)
    } else {
        f
    }
}

/// The flags a mount is made with.
pub fn mount_flags(flags: u64) -> (r: u64)
    ensures
        r == spec_mount_flags(flags),
{
    let mut f = flags;
    if f & MS_NOATIME == 0 {
        f = f | MS_RELATIME;
    }
    if f & MS_STRICTATIME != 0 {
        f = f & !(MS_RELATIME | MS_NOATIME);
    }
    f
}

/// `name` when `flags` has `flag`, else nothing.
pub open spec fn opt_if(flags: u64, flag: u64, name: Seq<u8>) -> Seq<u8> {
    if flags & flag != 0 {
        name
    } else {
        Seq::empty()
    }
}

/// The mount options of `flags`: `ro` or `rw`, then `,nosuid`, `,nodev`,
/// `,noexec`, `,noatime`, `,relatime`, `,lazytime` for the flags set.
pub open spec fn spec_mount_opts(flags: u64) -> Seq<u8> {
    (if flags & MS_RDONLY != 0 {
        seq![114u8, 111u8]
    } else {
        seq![114u8, 119u8]
    }) + opt_if(flags, MS_NOSUID, seq![44u8, 110u8, 111u8, 115u8, 117u8, 105u8, 100u8])
        + opt_if(flags, MS_NODEV, seq![44u8, 110u8, 111u8, 100u8, 101u8, 118u8])
        + opt_if(flags, MS_NOEXEC, seq![44u8, 110u8, 111u8, 101u8, 120u8, 101u8, 99u8])
        + opt_if(flags, MS_NOATIME, seq![44u8, 110u8, 111u8, 97u8, 116u8, 105u8, 109u8, 101u8])
        + opt_if(flags, MS_RELATIME, seq![44u8, 114u8, 101u8, 108u8, 97u8, 116u8, 105u8, 109u8, 101u8])
        + opt_if(flags, MS_LAZYTIME, seq![44u8, 108u8, 97u8, 122u8, 121u8, 116u8, 105u8, 109u8, 101u8])
}

/// Append the bytes of `src` to `dst`.
fn push_all(dst: &mut Vec<u8>, src: &[u8])
    ensures
        final(dst)@ == old(dst)@ + src@,
{
    let mut i: usize = 0;
    while i < src.len()
        invariant
            i <= src@.len(),
            dst@ == old(dst)@ + src@.subrange(0, i as int),
        decreases src@.len() - i,
    {
        dst.push(src[i]);
        i = i + 1;
        assert(dst@ =~= old(dst)@ + src@.subrange(0, i as int));
    }
    assert(src@.subrange(0, src@.len() as int) =~= src@);
}

/// Append `name` to `out` when `flags` has `flag`.
fn push_opt(out: &mut Vec<u8>, flags: u64, flag: u64, name: &[u8])
    ensures
        final(out)@ == old(out)@ + opt_if(flags, flag, name@),
{
    if flags & flag != 0 {
        push_all(out, name);
    } else {
        assert(old(out)@ + Seq::<u8>::empty() =~= old(out)@);
    }
}

/// The mount options of `flags`, as text.
#[verifier::rlimit(40)]
pub fn mount_opts(flags: u64) -> (r: Vec<u8>)
    ensures
        r@ == spec_mount_opts(flags),
{
    let mut out: Vec<u8> = Vec::new();
    if flags & MS_RDONLY != 0 {
        out.push(114u8);
        out.push(111u8);
    } else {
        out.push(114u8);
        out.push(119u8);
    }
    let nosuid: [u8; 7] = [44u8, 110u8, 111u8, 115u8, 117u8, 105u8, 100u8];
    let nodev: [u8; 6] = [44u8, 110u8, 111u8, 100u8, 101u8, 118u8];
    let noexec: [u8; 7] = [44u8, 110u8, 111u8, 101u8, 120u8, 101u8, 99u8];
    let noatime: [u8; 8] = [44u8, 110u8, 111u8, 97u8, 116u8, 105u8, 109u8, 101u8];
    let relatime: [u8; 9] = [44u8, 114u8, 101u8, 108u8, 97u8, 116u8, 105u8, 109u8, 101u8];
    let lazytime: [u8; 9] = [44u8, 108u8, 97u8, 122u8, 121u8, 116u8, 105u8, 109u8, 101u8];
    push_opt(&mut out, flags, MS_NOSUID, &nosuid);
    push_opt(&mut out, flags, MS_NODEV, &nodev);
    push_opt(&mut out, flags, MS_NOEXEC, &noexec);
    push_opt(&mut out, flags, MS_NOATIME, &noatime);
    push_opt(&mut out, flags, MS_RELATIME, &relatime);
    push_opt(&mut out, flags, MS_LAZYTIME, &lazytime);
    proof {
        assert(nosuid@ =~= seq![44u8, 110u8, 111u8, 115u8, 117u8, 105u8, 100u8]);
        assert(nodev@ =~= seq![44u8, 110u8, 111u8, 100u8, 101u8, 118u8]);
        assert(noexec@ =~= seq![44u8, 110u8, 111u8, 101u8, 120u8, 101u8, 99u8]);
        assert(noatime@ =~= seq![44u8, 110u8, 111u8, 97u8, 116u8, 105u8, 109u8, 101u8]);
        assert(relatime@ =~= seq![44u8, 114u8, 101u8, 108u8, 97u8, 116u8, 105u8, 109u8, 101u8]);
        assert(lazytime@ =~= seq![44u8, 108u8, 97u8, 122u8, 121u8, 116u8, 105u8, 109u8, 101u8]);
    }
    out
}

/// A file system type, as its driver implements it.
pub trait MountCreator<I> {
    /// Whether `first_block` looks like this file system.
    fn check_signature(&self, first_block: &[u8]) -> Result<bool, u32>;

    /// Mount `source` with `flags`; the root directory's inode.
    fn create_mount(&self, source: &[u8], flags: u64) -> Result<Arc<I>, u32>;
}

/// A mounted file system: the entry of its root directory.
pub struct Mount {
    root: usize,
}

impl Mount {
    pub closed spec fn spec_root(&self) -> usize {
        self.root
    }

    /// The root entry of a file system mounted on entry `mp`: a new entry
    /// with `mp`'s name under `mp`'s parent, recording `root_inode` as a
    /// directory. It is not linked into a bucket.
    pub fn new<I: Inode>(cache: &mut DentryCache<I>, mp: usize, root_inode: Arc<I>) -> (r: Mount)
        requires
            old(cache).wf(),
            mp < old(cache).entries().len(),
        ensures
            final(cache).wf(),
            keeps_inodes(*old(cache), *final(cache)),
            keeps_links(*old(cache), *final(cache)),
            r.spec_root() == old(cache).entries().len(),
            final(cache).entries().len() == old(cache).entries().len() + 1,
            forall|j: int| 0 <= j < old(cache).entries().len() ==> #[trigger] final(cache).entries()[j] == old(cache).entries()[j],
            final(cache).entries()[r.spec_root() as int].spec_parent() == old(cache).entries()[mp as int].spec_parent(),
            final(cache).entries()[r.spec_root() as int].spec_name() == old(cache).entries()[mp as int].spec_name(),
            final(cache).entries()[r.spec_root() as int].spec_hash() == old(cache).entries()[mp as int].spec_hash(),
            final(cache).entries()[r.spec_root() as int].spec_data() == Some((root_inode, D_DIRECTORY)),
            forall|b: int| #[trigger] final(cache).bucket(b) == old(cache).bucket(b),
            coherent(*old(cache)) ==> coherent(*final(cache)),
    {
        let parent = cache.get(mp).parent_addr();
        let mut root: Dentry<I> = Dentry::create(parent, cache.get(mp).get_name());
        let _ = root.save_dir(root_inode);
        proof {
            assert(cache.entries()[mp as int].spec_parent() < cache.entries().len());
            assert(valid_data(cache.entries()[mp as int].spec_data()));
        }
        let id = cache.insert(root);
        Mount { root: id }
    }

    /// The root entry.
    pub fn root(&self) -> (r: usize)
        ensures
            r == self.spec_root(),
    {
        self.root
    }
}

/// A mount as the table keeps it.
pub struct MountPointData {
    pub mount: Mount,
    pub source: Vec<u8>,
    pub mountpoint: Vec<u8>,
    pub fstype: Vec<u8>,
    pub flags: u64,
}

/// The line of a mount in the mount list: source, mount point, type,
/// options and two zeros, separated by spaces.
pub open spec fn mount_line(m: MountPointData) -> Seq<u8> {
    m.source@ + seq![32u8] + m.mountpoint@ + seq![32u8] + m.fstype@ + seq![32u8] + spec_mount_opts(
        m.flags,
    ) + seq![32u8, 48u8, 32u8, 48u8, 10u8]
}

/// The lines of a list of mounts, in order.
pub open spec fn mount_lines(ms: Seq<MountPointData>) -> Seq<u8>
    decreases ms.len(),
{
    if ms.len() == 0 {
        Seq::empty()
    } else {
        mount_lines(ms.drop_last()) + mount_line(ms.last())
    }
}

/// `(rootfs)`: the source the root file system is mounted from.
pub open spec fn rootfs_source() -> Seq<u8> {
    seq![40u8, 114u8, 111u8, 111u8, 116u8, 102u8, 115u8, 41u8]
}

/// Index `i` is the first registration of type `name`.
pub open spec fn first_registered(fstypes: Seq<Seq<u8>>, name: Seq<u8>, i: int) -> bool {
    &&& 0 <= i < fstypes.len()
    &&& fstypes[i] == name
    &&& forall|k: int| 0 <= k < i ==> fstypes[k] != name
}

/// A registered creator is the one mounts use: after `register_filesystem`
/// added `creator` for a type `name` not registered before, the first
/// registration of `name` is that creator, which is the one `do_mount`
/// calls for `name`.
pub proof fn law_registered_creator_is_used<C>(t0: MountTable<C>, t1: MountTable<C>, name: Seq<u8>, creator: C)
    requires
        !t0.fstypes().contains(name),
        t1.fstypes() == t0.fstypes().push(name),
        t1.creators() == t0.creators().push(creator),
    ensures
        exists|i: int| #[trigger] first_registered(t1.fstypes(), name, i) && t1.creators()[i] == creator,
{
    let i = t0.fstypes().len() as int;
    assert(t0.creators().len() == t0.fstypes().len());
    assert forall|k: int| 0 <= k < i implies t1.fstypes()[k] != name by {
        assert(t1.fstypes()[k] == t0.fstypes()[k]);
        if t0.fstypes()[k] == name {
            assert(t0.fstypes().contains(name));
        }
    }
    assert(first_registered(t1.fstypes(), name, i));
}

/// The registered file system types and the mounts made.
pub struct MountTable<C> {
    creators: Vec<(Vec<u8>, C)>,
    mounts: Vec<MountPointData>,
}

/// Whether `a` and `b` hold the same bytes.
pub(crate) fn bytes_eq(a: &[u8], b: &[u8]) -> (r: bool)
    ensures
        r == (a@ == b@),
{
    if a.len() != b.len() {
        return false;
    }
    let mut i: usize = 0;
    while i < a.len()
        invariant
            i <= a@.len(),
            a@.len() == b@.len(),
            forall|k: int| 0 <= k < i ==> a@[k] == b@[k],
        decreases a@.len() - i,
    {
        if a[i] != b[i] {
            return false;
        }
        i = i + 1;
    }
    assert(a@ =~= b@);
    true
}

/// A copy of `s`.
fn to_vec(s: &[u8]) -> (r: Vec<u8>)
    ensures
        r@ == s@,
{
    let mut r: Vec<u8> = Vec::new();
    push_all(&mut r, s);
    assert(Seq::<u8>::empty() + s@ =~= s@);
    r
}

impl<C> MountTable<C> {
    /// The registered type names, in order of registration.
    pub closed spec fn fstypes(&self) -> Seq<Seq<u8>> {
        self.creators@.map_values(|e: (Vec<u8>, C)| e.0@)
    }

    /// The creators, in order of registration: the one at an index makes
    /// the type named at that index in `fstypes`.
    pub closed spec fn creators(&self) -> Seq<C> {
        self.creators@.map_values(|e: (Vec<u8>, C)| e.1)
    }

    /// The mounts, in order.
    pub closed spec fn mount_list(&self) -> Seq<MountPointData> {
        self.mounts@
    }

    /// An empty table.
    pub fn new() -> (r: MountTable<C>)
        ensures
            r.fstypes() == Seq::<Seq<u8>>::empty(),
            r.creators() == Seq::<C>::empty(),
            r.mount_list() == Seq::<MountPointData>::empty(),
    {
        let r = MountTable { creators: Vec::new(), mounts: Vec::new() };
        assert(r.fstypes() =~= Seq::<Seq<u8>>::empty());
        assert(r.creators() =~= Seq::<C>::empty());
        r
    }

    /// The index of the creator of `fstype`, if it is registered.
    fn find_creator(&self, fstype: &[u8]) -> (r: Option<usize>)
        ensures
            match r {
                Some(i) => first_registered(self.fstypes(), fstype@, i as int),
                None => !self.fstypes().contains(fstype@),
            },
    {
        let mut i: usize = 0;
        while i < self.creators.len()
            invariant
                i <= self.creators@.len(),
                forall|k: int| 0 <= k < i ==> self.fstypes()[k] != fstype@,
            decreases self.creators@.len() - i,
        {
            if bytes_eq(self.creators[i].0.as_slice(), fstype) {
                return Some(i);
            }
            i = i + 1;
        }
        None
    }

    /// Register file system type `fstype`; `EEXIST` when it is already.
    pub fn register_filesystem(&mut self, fstype: &[u8], creator: C) -> (r: Result<(), u32>)
        ensures
            old(self).fstypes().contains(fstype@) ==> r == Err::<(), u32>(EEXIST)
                && final(self).fstypes() == old(self).fstypes() && final(self).creators() == old(
                self,
            ).creators(),
            !old(self).fstypes().contains(fstype@) ==> r is Ok && final(self).fstypes()
                == old(self).fstypes().push(fstype@) && final(self).creators() == old(self).creators().push(
                creator,
            ),
            final(self).mount_list() == old(self).mount_list(),
    {
        match self.find_creator(fstype) {
            Some(_) => Err(EEXIST),
            None => {
                let name = to_vec(fstype);
                self.creators.push((name, creator));
                assert(self.fstypes() =~= old(self).fstypes().push(fstype@));
                assert(self.creators() =~= old(self).creators().push(creator));
                Ok(())
            },
        }
    }

    /// The mount list as text: one line per mount, in order.
    #[verifier::rlimit(30)]
    pub fn dump_mounts(&self) -> (r: Vec<u8>)
        ensures
            r@ == mount_lines(self.mount_list()),
    {
        let mut out: Vec<u8> = Vec::new();
        let mut i: usize = 0;
        while i < self.mounts.len()
            invariant
                i <= self.mounts@.len(),
                out@ == mount_lines(self.mounts@.subrange(0, i as int)),
            decreases self.mounts@.len() - i,
        {
            let m = &self.mounts[i];
            let ghost before = out@;
            push_all(&mut out, m.source.as_slice());
            out.push(32u8);
            push_all(&mut out, m.mountpoint.as_slice());
            out.push(32u8);
            push_all(&mut out, m.fstype.as_slice());
            out.push(32u8);
            let opts = mount_opts(m.flags);
            push_all(&mut out, opts.as_slice());
            let tail: [u8; 5] = [32u8, 48u8, 32u8, 48u8, 10u8];
            push_all(&mut out, &tail);
            proof {
                assert(tail@ =~= seq![32u8, 48u8, 32u8, 48u8, 10u8]);
                assert(self.mounts@.subrange(0, i + 1).drop_last() =~= self.mounts@.subrange(0, i as int));
                assert(out@ =~= before + mount_line(*m));
            }
            i = i + 1;
        }
        assert(self.mounts@.subrange(0, self.mounts@.len() as int) =~= self.mounts@);
        out
    }
}

/// The bytes `tmpfs`.
pub open spec fn tmpfs_name() -> Seq<u8> {
    seq![116u8, 109u8, 112u8, 102u8, 115u8]
}

/// The table and cache after a file system of type `fstype` from `source`
/// was mounted with `flags` on entry `mp`, known as `mp_str`: a new root
/// entry took `mp`'s place in its bucket, and the mount list gained the
/// mount.
pub open spec fn mounted<C, I: Inode>(
    t0: MountTable<C>,
    t1: MountTable<C>,
    c0: DentryCache<I>,
    c1: DentryCache<I>,
    mp: usize,
    source: Seq<u8>,
    mp_str: Seq<u8>,
    fstype: Seq<u8>,
    flags: u64,
) -> bool {
    let root = c0.entries().len() as usize;
    let b = bucket_of(c0.entries()[mp as int].spec_hash());
    let m = t1.mount_list().last();
    &&& c1.entries().len() == root + 1
    &&& forall|j: int| 0 <= j < root ==> #[trigger] c1.entries()[j] == c0.entries()[j]
    &&& c1.entries()[root as int].spec_parent() == c0.entries()[mp as int].spec_parent()
    &&& c1.entries()[root as int].spec_name() == c0.entries()[mp as int].spec_name()
    &&& (c1.entries()[root as int].spec_data() matches Some((_, f)) && f == D_DIRECTORY)
    &&& c1.bucket(b).len() == c0.bucket(b).len()
    &&& forall|k: int| 0 <= k < c0.bucket(b).len() ==> #[trigger] c1.bucket(b)[k] == if c0.bucket(b)[k] == mp {
        root
    } else {
        c0.bucket(b)[k]
    }
    &&& forall|c: int| 0 <= c < 256 && c != b ==> #[trigger] c1.bucket(c) == c0.bucket(c)
    &&& t1.fstypes() == t0.fstypes()
    &&& t1.mount_list().len() == t0.mount_list().len() + 1
    &&& forall|j: int| 0 <= j < t0.mount_list().len() ==> #[trigger] t1.mount_list()[j] == t0.mount_list()[j]
    &&& m.mount.spec_root() == root
    &&& m.source@ == source
    &&& m.mountpoint@ == mp_str
    &&& m.fstype@ == fstype
    &&& m.flags == flags
}

impl<C> MountTable<C> {
    /// Mount a file system of type `fstype` from `source` on the entry
    /// `mountpoint`, known as `mountpoint_str`, with `flags` normalized
    /// by `mount_flags`. `ENOTDIR` when the entry is not a directory,
    /// `ENODEV` for an unregistered type, the driver's error when it fails;
    /// nothing changes then.
    pub fn do_mount<I: Inode>(
        &mut self,
        cache: &mut DentryCache<I>,
        mountpoint: usize,
        source: &[u8],
        mountpoint_str: &[u8],
        fstype: &[u8],
        flags: u64,
    ) -> (r: Result<(), u32>) where C: MountCreator<I>
        requires
            old(cache).wf(),
            mountpoint < old(cache).entries().len(),
        ensures
            final(cache).wf(),
            keeps_inodes(*old(cache), *final(cache)),
            !is_dir_entry(*old(cache), mountpoint) ==> r == Err::<(), u32>(ENOTDIR),
            is_dir_entry(*old(cache), mountpoint) && !old(self).fstypes().contains(fstype@) ==> r
                == Err::<(), u32>(ENODEV),
            r is Err ==> *final(cache) == *old(cache) && final(self).fstypes() == old(self).fstypes()
                && final(self).mount_list() == old(self).mount_list(),
            coherent(*old(cache)) ==> coherent(*final(cache)),
            r is Ok ==> mounted(
                *old(self),
                *final(self),
                *old(cache),
                *final(cache),
                mountpoint,
                source@,
                mountpoint_str@,
                fstype@,
                spec_mount_flags(flags),
            ),
            is_dir_entry(*old(cache), mountpoint) && old(self).fstypes().contains(fstype@) ==> exists|
                i: int,
                res: Result<Arc<I>, u32>,
            |
                #[trigger] call_ensures(C::create_mount, (&old(self).creators()[i], source, spec_mount_flags(flags)), res)
                    && first_registered(old(self).fstypes(), fstype@, i) && match res {
                    Ok(root) => r is Ok && (final(cache).entries()[old(cache).entries().len() as int].spec_data()
                        matches Some((ri, _)) && ri == root),
                    Err(e) => r == Err::<(), u32>(e),
                },
    {
        let ghost t00 = *self;
        let ghost c00 = *cache;
        let flags = mount_flags(flags);
        if !cache.get(mountpoint).is_directory() {
            proof {
                if is_dir_entry(*cache, mountpoint) {
                    assert(D_DIRECTORY & D_DIRECTORY != 0) by (bit_vector);
                }
            }
            return Err(ENOTDIR);
        }
        proof {
            assert(valid_data(cache.entries()[mountpoint as int].spec_data()));
            assert(D_SYMLINK & D_DIRECTORY == 0 && D_REGULAR & D_DIRECTORY == 0) by (bit_vector);
        }
        let idx = match self.find_creator(fstype) {
            Some(i) => i,
            None => return Err(ENODEV),
        };
        let res = self.creators[idx].1.create_mount(source, flags);
        proof {
            assert(self.creators()[idx as int] == self.creators@[idx as int].1);
            assert(call_ensures(C::create_mount, (&t00.creators()[idx as int], source, flags), res));
        }
        let inode = match res {
            Ok(i) => i,
            Err(e) => {
                proof {
                    assert(exists|i: int, res2: Result<Arc<I>, u32>|
                        #[trigger] call_ensures(C::create_mount, (&t00.creators()[i], source, flags), res2)
                            && first_registered(t00.fstypes(), fstype@, i) && match res2 {
                            Ok(root) => false,
                            Err(e2) => Err::<(), u32>(e) == Err::<(), u32>(e2),
                        });
                }
                return Err(e);
            },
        };
        let ghost c0 = *cache;
        let ghost made = inode;
        let mount = Mount::new(cache, mountpoint, inode);
        let root = mount.root();
        proof {
            let c1 = *cache;
            if c1.linked(root) {
                let b = choose|b: int| 0 <= b < 256 && #[trigger] c1.bucket(b).contains(root);
                let k = choose|k: int| 0 <= k < c1.bucket(b).len() && c1.bucket(b)[k] == root;
                assert(c0.bucket(b)[k] < c0.entries().len());
            }
            assert(c1.entries()[mountpoint as int] == c0.entries()[mountpoint as int]);
        }
        d_replace(cache, mountpoint, root);
        let ghost t0 = *self;
        let mpdata = MountPointData {
            mount,
            source: to_vec(source),
            mountpoint: to_vec(mountpoint_str),
            fstype: to_vec(fstype),
            flags,
        };
        self.mounts.push(mpdata);
        proof {
            assert(self.fstypes() =~= t0.fstypes());
            assert(cache.entries()[c00.entries().len() as int].spec_data() matches Some((ri, _)) && ri == made);
            assert(exists|i: int, res2: Result<Arc<I>, u32>|
                #[trigger] call_ensures(C::create_mount, (&t00.creators()[i], source, flags), res2)
                    && first_registered(t00.fstypes(), fstype@, i) && match res2 {
                    Ok(root) => (cache.entries()[c00.entries().len() as int].spec_data() matches Some((ri, _))
                        && ri == root),
                    Err(e2) => false,
                });
        }
        Ok(())
    }

    /// Mount the root file system: a `tmpfs` from `(rootfs)` with
    /// `MS_NOATIME` on the root entry, linked so it can be found, and
    /// listed as mounted on `/`. The type must be registered; the driver's
    /// error otherwise, with nothing changed. What follows the driver's
    /// call is `install_root`.
    pub fn mount_root<I: Inode>(&mut self, cache: &mut DentryCache<I>) -> (r: Result<usize, u32>) where
        C: MountCreator<I>,
        requires
            old(cache).wf(),
            old(self).fstypes().contains(tmpfs_name()),
        ensures
            final(cache).wf(),
            keeps_inodes(*old(cache), *final(cache)),
            keeps_links(*old(cache), *final(cache)),
            coherent(*old(cache)) && !old(cache).linked(0) && no_linked_twin(*old(cache), 0) ==> coherent(
                *final(cache),
            ),
            r is Err ==> *final(cache) == *old(cache) && final(self).fstypes() == old(self).fstypes()
                && final(self).mount_list() == old(self).mount_list(),
            r matches Ok(root) ==> root_installed(*old(self), *final(self), *old(cache), *final(cache), root),
            exists|i: int, source: &[u8], res: Result<Arc<I>, u32>|
                #[trigger] call_ensures(C::create_mount, (&old(self).creators()[i], source, MS_NOATIME), res)
                    && first_registered(old(self).fstypes(), tmpfs_name(), i) && source@ == rootfs_source()
                    && match res {
                    Ok(inode) => r matches Ok(root) && (final(cache).entries()[root as int].spec_data() matches Some((
                        ri,
                        _,
                    )) && ri == inode),
                    Err(e) => r == Err::<usize, u32>(e),
                },
    {
        let ghost t00 = *self;
        let fstype: [u8; 5] = [116u8, 109u8, 112u8, 102u8, 115u8];
        let source: [u8; 8] = [40u8, 114u8, 111u8, 111u8, 116u8, 102u8, 115u8, 41u8];
        proof {
            assert(fstype@ =~= tmpfs_name());
        }
        let src: &[u8] = &source;
        proof {
            assert(src@ =~= rootfs_source());
        }
        let idx = match self.find_creator(&fstype) {
            Some(i) => i,
            None => vstd::pervasive::unreached(),
        };
        let res = self.creators[idx].1.create_mount(src, MS_NOATIME);
        proof {
            assert(self.creators()[idx as int] == self.creators@[idx as int].1);
            assert(call_ensures(C::create_mount, (&t00.creators()[idx as int], src, MS_NOATIME), res));
        }
        let inode = match res {
            Ok(i) => i,
            Err(e) => {
                proof {
                    assert(exists|i: int, source: &[u8], res2: Result<Arc<I>, u32>|
                        #[trigger] call_ensures(C::create_mount, (&t00.creators()[i], source, MS_NOATIME), res2)
                            && first_registered(t00.fstypes(), tmpfs_name(), i) && source@ == rootfs_source()
                            && match res2 {
                            Ok(inode) => false,
                            Err(e2) => Err::<usize, u32>(e) == Err::<usize, u32>(e2),
                        });
                }
                return Err(e);
            },
        };
        let ghost made = inode;
        let root = self.install_root(cache, inode);
        proof {
            assert(exists|i: int, source: &[u8], res2: Result<Arc<I>, u32>|
                #[trigger] call_ensures(C::create_mount, (&t00.creators()[i], source, MS_NOATIME), res2)
                    && first_registered(t00.fstypes(), tmpfs_name(), i) && source@ == rootfs_source()
                    && match res2 {
                    Ok(inode) => Ok::<usize, u32>(root) matches Ok(rt) && (cache.entries()[rt as int].spec_data()
                        matches Some((ri, _)) && ri == inode),
                    Err(e2) => false,
                });
        }
        Ok(root)
    }

    /// Put `inode`, the root directory the driver made, on the root entry
    /// as `mount_root` does: a new directory entry in the place of entry
    /// 0, linked so it can be found, listed as a `tmpfs` from `(rootfs)`
    /// mounted on `/` with `MS_NOATIME`.
    pub fn install_root<I: Inode>(&mut self, cache: &mut DentryCache<I>, inode: Arc<I>) -> (root: usize)
        requires
            old(cache).wf(),
        ensures
            final(cache).wf(),
            keeps_inodes(*old(cache), *final(cache)),
            keeps_links(*old(cache), *final(cache)),
            coherent(*old(cache)) && !old(cache).linked(0) && no_linked_twin(*old(cache), 0) ==> coherent(
                *final(cache),
            ),
            root_installed(*old(self), *final(self), *old(cache), *final(cache), root),
            final(cache).entries()[root as int].spec_data() matches Some((i, _)) && i == inode,
    {
        let fstype: [u8; 5] = [116u8, 109u8, 112u8, 102u8, 115u8];
        let source: [u8; 8] = [40u8, 114u8, 111u8, 111u8, 116u8, 102u8, 115u8, 41u8];
        let slash: [u8; 1] = [47u8];
        proof {
            assert(fstype@ =~= tmpfs_name());
            assert(source@ =~= seq![40u8, 114u8, 111u8, 111u8, 116u8, 102u8, 115u8, 41u8]);
            assert(slash@ =~= seq![47u8]);
        }
        let ghost c0 = *cache;
        let mount = Mount::new(cache, 0, inode);
        let root = mount.root();
        proof {
            let c1 = *cache;
            if coherent(c0) && !c0.linked(0) && no_linked_twin(c0, 0) {
                assert forall|b: int, k: int|
                    0 <= b < 256 && 0 <= k < c1.bucket(b).len() && #[trigger] c1.bucket(b)[k] != root implies !same_entry(
                    c1.entries()[c1.bucket(b)[k] as int],
                    c1.entries()[root as int],
                ) by {
                    let y = c0.bucket(b)[k];
                    assert(y < c0.entries().len());
                    if y == 0 {
                        assert(c0.bucket(b).contains(0));
                    }
                    assert(c1.entries()[y as int] == c0.entries()[y as int]);
                    assert(!same_entry(c0.entries()[y as int], c0.entries()[0]));
                }
            }
        }
        d_add(cache, root);
        let ghost t0 = *self;
        let mpdata = MountPointData {
            mount,
            source: to_vec(&source),
            mountpoint: to_vec(&slash),
            fstype: to_vec(&fstype),
            flags: MS_NOATIME,
        };
        self.mounts.push(mpdata);
        proof {
            assert(self.fstypes() =~= t0.fstypes());
        }
        root
    }
}

/// The table and cache after the root file system, with root directory
/// entry `root`, was mounted on entry 0.
pub open spec fn root_installed<C, I: Inode>(
    t0: MountTable<C>,
    t1: MountTable<C>,
    c0: DentryCache<I>,
    c1: DentryCache<I>,
    root: usize,
) -> bool {
    &&& root == c0.entries().len()
    &&& c1.entries().len() == root + 1
    &&& forall|j: int| 0 <= j < root ==> #[trigger] c1.entries()[j] == c0.entries()[j]
    &&& c1.entries()[root as int].spec_parent() == c0.entries()[0].spec_parent()
    &&& c1.entries()[root as int].spec_name() == c0.entries()[0].spec_name()
    &&& (c1.entries()[root as int].spec_data() matches Some((_, f)) && f == D_DIRECTORY)
    &&& c1.bucket(bucket_of(c1.entries()[root as int].spec_hash())).last() == root
    &&& t1.fstypes() == t0.fstypes()
    &&& t1.mount_list().len() == t0.mount_list().len() + 1
    &&& t1.mount_list().last().mount.spec_root() == root
    &&& t1.mount_list().last().source@ == seq![40u8, 114u8, 111u8, 111u8, 116u8, 102u8, 115u8, 41u8]
    &&& t1.mount_list().last().mountpoint@ == seq![47u8]
    &&& t1.mount_list().last().fstype@ == tmpfs_name()
    &&& t1.mount_list().last().flags == MS_NOATIME
}

/// `/dev/vda2`: the source that `mount` takes as mounted already.
pub open spec fn premounted_source() -> Seq<u8> {
    seq![47u8, 100u8, 101u8, 118u8, 47u8, 118u8, 100u8, 97u8, 50u8]
}

impl<C> MountTable<C> {
    /// `mount` by path: `/dev/vda2` counts as mounted already and nothing
    /// happens; otherwise `target` is walked from the working directory,
    /// following symbolic links, and the entry found is mounted on as
    /// `do_mount` does. The walk's error, `ENOENT` when the entry found has
    /// no inode, or `do_mount`'s error; the table is unchanged on an error.
    pub fn mount_path<I: Inode>(
        &mut self,
        cache: &mut DentryCache<I>,
        context: &FsContext,
        source: &[u8],
        target: &Path,
        target_str: &[u8],
        fstype: &[u8],
        flags: u64,
    ) -> (r: Result<(), u32>) where C: MountCreator<I>
        requires
            old(cache).wf(),
            context.cwd < old(cache).entries().len(),
            context.fsroot < old(cache).entries().len(),
        ensures
            final(cache).wf(),
            keeps_inodes(*old(cache), *final(cache)),
            coherent(*old(cache)) ==> coherent(*final(cache)),
            source@ == premounted_source() ==> r is Ok && *final(cache) == *old(cache)
                && final(self).fstypes() == old(self).fstypes() && final(self).mount_list()
                == old(self).mount_list(),
            r is Err ==> final(self).fstypes() == old(self).fstypes() && final(self).mount_list()
                == old(self).mount_list(),
            r is Ok && source@ != premounted_source() ==> exists|c: DentryCache<I>, mp: usize|
                #![trigger mounted(*old(self), *final(self), c, *final(cache), mp, source@, target_str@, fstype@, spec_mount_flags(flags))]
                c.wf() && grows(*old(cache), c) && mp < c.entries().len() && mounted(
                    *old(self),
                    *final(self),
                    c,
                    *final(cache),
                    mp,
                    source@,
                    target_str@,
                    fstype@,
                    spec_mount_flags(flags),
                ),
    {
        let premounted: [u8; 9] = [47u8, 100u8, 101u8, 118u8, 47u8, 118u8, 100u8, 97u8, 50u8];
        proof {
            assert(premounted@ =~= premounted_source());
        }
        if bytes_eq(source, &premounted) {
            return Ok(());
        }
        let mp = match cache.open(context, target, true) {
            Ok(mp) => mp,
            Err(e) => return Err(e),
        };
        if !cache.get(mp).is_valid() {
            return Err(ENOENT);
        }
        let ghost c = *cache;
        let r = self.do_mount(cache, mp, source, target_str, fstype, flags);
        proof {
            if r is Ok {
                assert(c.wf() && grows(*old(cache), c) && mp < c.entries().len());
            }
        }
        r
    }
}


} // verus!
