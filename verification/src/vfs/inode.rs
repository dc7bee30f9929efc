//! What the file system layer asks of an inode, and the file formats.
use std::sync::Arc;
use vstd::prelude::*;

verus! {

/// The mask of the format bits of a mode.
pub const S_IFMT: u32 = 0o170000;
pub const S_IFSOCK: u32 = 0o140000;
pub const S_IFLNK: u32 = 0o120000;
pub const S_IFREG: u32 = 0o100000;
pub const S_IFBLK: u32 = 0o060000;
pub const S_IFDIR: u32 = 0o040000;
pub const S_IFCHR: u32 = 0o020000;
pub const S_IFIFO: u32 = 0o010000;

/// The format bits of `mode`.
pub open spec fn spec_format(mode: u32) -> u32 {
    mode & S_IFMT
}

/// The format bits of `mode`.
pub fn file_format(mode: u32) -> (r: u32)
    ensures
        r == spec_format(mode),
{
    mode & S_IFMT
}

/// An inode, as a file system implements it. Directory operations name the
/// entry they act on by its name in the directory; those that make an
/// entry return its new inode, which the caller records in the dentry.
pub trait Inode: Sized {
    /// The mode: format bits and permissions.
    fn mode(&self) -> u32;

    /// The inode of entry `name` of this directory, if there is one.
    fn lookup(&self, name: &[u8]) -> Result<Option<Arc<Self>>, u32>;

    /// The target of this symbolic link.
    fn readlink(&self) -> Result<Vec<u8>, u32>;

    /// The entries of this directory from `offset` on: names and inode
    /// numbers.
    fn readdir(&self, offset: usize) -> Result<Vec<(Vec<u8>, u64)>, u32>;

    /// Make a regular file `name` in this directory.
    fn creat(&self, name: &[u8], mode: u32) -> Result<Arc<Self>, u32>;

    /// Make a directory `name` in this directory.
    fn mkdir(&self, name: &[u8], mode: u32) -> Result<Arc<Self>, u32>;

    /// Remove entry `name` of this directory.
    fn unlink(&self, name: &[u8]) -> Result<(), u32>;

    /// Make a symbolic link `name` to `target` in this directory.
    fn symlink(&self, name: &[u8], target: &[u8]) -> Result<Arc<Self>, u32>;

    /// Make `name` in this directory a new link to `inode`.
    fn linkat(&self, name: &[u8], inode: &Arc<Self>) -> Result<(), u32>;

    /// Make a device node `name` in this directory.
    fn mknod(&self, name: &[u8], mode: u32, dev: u32) -> Result<Arc<Self>, u32>;

    /// Change the permission bits.
    fn chmod(&self, mode: u32) -> Result<(), u32>;

    /// Change the owner.
    fn chown(&self, uid: u32, gid: u32) -> Result<(), u32>;

    /// Up to `len` bytes of this file from `offset` on.
    fn read(&self, offset: usize, len: usize) -> Result<Vec<u8>, u32>;

    /// Write `data` to this file at `offset`, or at its end when
    /// `append`; how many bytes were written.
    fn write(&self, data: &[u8], offset: usize, append: bool) -> Result<usize, u32>;

    /// The size of this file in bytes.
    fn size(&self) -> usize;

    /// Cut or extend this file to `size` bytes.
    fn truncate(&self, size: usize) -> Result<(), u32>;

    /// The device number of this device node.
    fn devid(&self) -> Result<u32, u32>;
}

} // verus!
