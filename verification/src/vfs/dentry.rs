//! Directory entries: a name under a parent, and the inode found there.
use crate::errno::ENOENT;
use crate::vfs::inode::{file_format, spec_format, Inode, S_IFDIR, S_IFLNK};
use std::sync::Arc;
use vstd::prelude::*;

verus! {

/// The entry is a directory.
pub const D_DIRECTORY: u64 = 1;
/// The entry is mounted over.
pub const D_MOUNTPOINT: u64 = 2;
/// The entry is a symbolic link.
pub const D_SYMLINK: u64 = 4;
/// The entry is any other file.
pub const D_REGULAR: u64 = 8;

pub const FNV_OFFSET: u64 = 0xcbf29ce484222325;
pub const FNV_PRIME: u64 = 0x100000001b3;

/// One step of the entry hash: mix in byte `b`.
pub open spec fn fnv_step(h: u64, b: u8) -> u64 {
    (h ^ (b as u64)).wrapping_mul(FNV_PRIME)
}

/// The hash `h` after mixing in the bytes of `s` in order.
pub open spec fn fnv(h: u64, s: Seq<u8>) -> u64
    decreases s.len(),
{
    if s.len() == 0 {
        h
    } else {
        fnv_step(fnv(h, s.drop_last()), s.last())
    }
}

/// The hash of an entry: its parent's id and then its name, mixed in.
pub open spec fn dentry_hash(parent: usize, name: Seq<u8>) -> u64 {
    fnv((FNV_OFFSET ^ (parent as u64)).wrapping_mul(FNV_PRIME), name)
}

/// The hash of an entry named `name` under the entry `parent`.
pub fn hash_of(parent: usize, name: &[u8]) -> (r: u64)
    ensures
        r == dentry_hash(parent, name@),
{
    let mut h: u64 = (FNV_OFFSET ^ (parent as u64)).wrapping_mul(FNV_PRIME);
    let mut i: usize = 0;
    while i < name.len()
        invariant
            i <= name@.len(),
            h == fnv((FNV_OFFSET ^ (parent as u64)).wrapping_mul(FNV_PRIME), name@.subrange(0, i as int)),
        decreases name@.len() - i,
    {
        proof {
            assert(name@.subrange(0, i + 1).drop_last() =~= name@.subrange(0, i as int));
        }
        h = (h ^ (name[i] as u64)).wrapping_mul(FNV_PRIME);
        i = i + 1;
    }
    assert(name@.subrange(0, name@.len() as int) =~= name@);
    h
}

/// The dentry flags for an inode of mode `mode`: directory, symbolic link,
/// or regular for everything else.
pub open spec fn spec_flags_for_mode(mode: u32) -> u64 {
    if spec_format(mode) == S_IFDIR {
        D_DIRECTORY
    } else if spec_format(mode) == S_IFLNK {
        D_SYMLINK
    } else {
        D_REGULAR
    }
}

/// The dentry flags for an inode of mode `mode`.
pub fn flags_for_mode(mode: u32) -> (r: u64)
    ensures
        r == spec_flags_for_mode(mode),
{
    let f = file_format(mode);
    if f == S_IFDIR {
        D_DIRECTORY
    } else if f == S_IFLNK {
        D_SYMLINK
    } else {
        D_REGULAR
    }
}

/// What a live entry knows: its inode and what kind of file it is.
pub struct DentryData<I> {
    pub inode: Arc<I>,
    pub flags: u64,
}

/// A directory entry: the id of its parent entry, its name, its hash, and
/// its inode once it is known to exist.
pub struct Dentry<I> {
    parent: usize,
    name: Vec<u8>,
    hash: u64,
    data: Option<DentryData<I>>,
}

impl<I: Inode> Dentry<I> {
    pub closed spec fn spec_parent(&self) -> usize {
        self.parent
    }

    pub closed spec fn spec_name(&self) -> Seq<u8> {
        self.name@
    }

    pub closed spec fn spec_hash(&self) -> u64 {
        self.hash
    }

    /// The inode and flags, once saved.
    pub closed spec fn spec_data(&self) -> Option<(Arc<I>, u64)> {
        match self.data {
            Some(d) => Some((d.inode, d.flags)),
            None => None,
        }
    }

    /// A new entry `name` under `parent`, with its hash and no inode yet.
    pub fn create(parent: usize, name: &[u8]) -> (r: Dentry<I>)
        ensures
            r.spec_parent() == parent,
            r.spec_name() == name@,
            r.spec_hash() == dentry_hash(parent, name@),
            r.spec_data() is None,
    {
        let mut n: Vec<u8> = Vec::new();
        let mut i: usize = 0;
        while i < name.len()
            invariant
                i <= name@.len(),
                n@ == name@.subrange(0, i as int),
            decreases name@.len() - i,
        {
            n.push(name[i]);
            i = i + 1;
            assert(n@ =~= name@.subrange(0, i as int));
        }
        assert(n@ =~= name@);
        let hash = hash_of(parent, name);
        Dentry { parent, name: n, hash, data: None }
    }

    /// The name.
    pub fn get_name(&self) -> (r: &[u8])
        ensures
            r@ == self.spec_name(),
    {
        self.name.as_slice()
    }

    /// The id of the parent entry.
    pub fn parent_addr(&self) -> (r: usize)
        ensures
            r == self.spec_parent(),
    {
        self.parent
    }

    /// The hash.
    pub fn hash(&self) -> (r: u64)
        ensures
            r == self.spec_hash(),
    {
        self.hash
    }

    /// Give the entry the name `name` under `parent`, with hash `hash`;
    /// its inode stays.
    pub fn relocate(&mut self, parent: usize, name: Vec<u8>, hash: u64)
        ensures
            final(self).spec_parent() == parent,
            final(self).spec_name() == name@,
            final(self).spec_hash() == hash,
            final(self).spec_data() == old(self).spec_data(),
    {
        self.parent = parent;
        self.name = name;
        self.hash = hash;
    }

    /// Record `inode` with `flags`; the entry must have none yet.
    fn save_data(&mut self, inode: Arc<I>, flags: u64)
        requires
            old(self).spec_data() is None,
        ensures
            final(self).spec_data() == Some((inode, flags)),
            final(self).spec_parent() == old(self).spec_parent(),
            final(self).spec_name() == old(self).spec_name(),
            final(self).spec_hash() == old(self).spec_hash(),
    {
        self.data = Some(DentryData { inode, flags });
    }

    /// Record a regular file's inode; the entry must have none yet.
    pub fn save_reg(&mut self, file: Arc<I>) -> (r: Result<(), u32>)
        requires
            old(self).spec_data() is None,
        ensures
            r is Ok,
            final(self).spec_data() == Some((file, D_REGULAR)),
            final(self).spec_parent() == old(self).spec_parent(),
            final(self).spec_name() == old(self).spec_name(),
            final(self).spec_hash() == old(self).spec_hash(),
    {
        self.save_data(file, D_REGULAR);
        Ok(())
    }

    /// Record a symbolic link's inode; the entry must have none yet.
    pub fn save_symlink(&mut self, link: Arc<I>) -> (r: Result<(), u32>)
        requires
            old(self).spec_data() is None,
        ensures
            r is Ok,
            final(self).spec_data() == Some((link, D_SYMLINK)),
            final(self).spec_parent() == old(self).spec_parent(),
            final(self).spec_name() == old(self).spec_name(),
            final(self).spec_hash() == old(self).spec_hash(),
    {
        self.save_data(link, D_SYMLINK);
        Ok(())
    }

    /// Record a directory's inode; the entry must have none yet.
    pub fn save_dir(&mut self, dir: Arc<I>) -> (r: Result<(), u32>)
        requires
            old(self).spec_data() is None,
        ensures
            r is Ok,
            final(self).spec_data() == Some((dir, D_DIRECTORY)),
            final(self).spec_parent() == old(self).spec_parent(),
            final(self).spec_name() == old(self).spec_name(),
            final(self).spec_hash() == old(self).spec_hash(),
    {
        self.save_data(dir, D_DIRECTORY);
        Ok(())
    }

    /// The inode; `ENOENT` when the entry has none.
    pub fn get_inode(&self) -> (r: Result<Arc<I>, u32>)
        ensures
            match self.spec_data() {
                Some((inode, _)) => r == Ok::<Arc<I>, u32>(inode),
                None => r == Err::<Arc<I>, u32>(ENOENT),
            },
    {
        match &self.data {
            Some(d) => Ok(d.inode.clone()),
            None => Err(ENOENT),
        }
    }

    /// The flags; 0 when the entry has no inode.
    pub fn flags(&self) -> (r: u64)
        ensures
            r == match self.spec_data() {
                Some((_, f)) => f,
                None => 0,
            },
    {
        match &self.data {
            Some(d) => d.flags,
            None => 0,
        }
    }

    /// Whether the entry is a directory.
    pub fn is_directory(&self) -> (r: bool)
        ensures
            r == (self.spec_data() matches Some((_, f)) && f & D_DIRECTORY != 0),
    {
        match &self.data {
            Some(d) => d.flags & D_DIRECTORY != 0,
            None => false,
        }
    }

    /// Whether the entry has an inode.
    pub fn is_valid(&self) -> (r: bool)
        ensures
            r == self.spec_data() is Some,
    {
        self.data.is_some()
    }

    /// Whether two entries are the same name under the same parent (their
    /// hashes agree too).
    pub fn hash_eq(&self, other: &Dentry<I>) -> (r: bool)
        ensures
            r == (self.spec_hash() == other.spec_hash() && self.spec_parent() == other.spec_parent()
                && self.spec_name() == other.spec_name()),
    {
        if self.hash != other.hash || self.parent != other.parent {
            return false;
        }
        if self.name.len() != other.name.len() {
            return false;
        }
        let mut i: usize = 0;
        while i < self.name.len()
            invariant
                i <= self.name@.len(),
                self.name@.len() == other.name@.len(),
                forall|k: int| 0 <= k < i ==> self.name@[k] == other.name@[k],
            decreases self.name@.len() - i,
        {
            if self.name[i] != other.name[i] {
                return false;
            }
            i = i + 1;
        }
        assert(self.name@ =~= other.name@);
        true
    }
}

} // verus!
