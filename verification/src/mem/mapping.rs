//! What backs a memory area: anonymous memory or a range of a file.
use crate::mem::align::PAGE_SIZE;
use vstd::prelude::*;

verus! {

/// Access rights of a memory area.
#[derive(Clone, Copy, PartialEq, Eq, Structural, Debug)]
pub struct Permission {
    pub read: bool,
    pub write: bool,
    pub execute: bool,
}

impl Permission {
    /// Readable and writable, not executable.
    pub fn read_write() -> (r: Permission)
        ensures
            r == (Permission { read: true, write: true, execute: false }),
    {
        Permission { read: true, write: true, execute: false }
    }
}

/// A file-backed mapping: `length` bytes of the file identified by `file`,
/// starting at the page-aligned `offset`. Bytes past `length` read as zero.
#[derive(Clone, Copy, PartialEq, Eq, Structural, Debug)]
pub struct FileMapping {
    pub file: u64,
    pub offset: usize,
    pub length: usize,
}

/// What backs a memory area.
#[derive(Clone, Copy, PartialEq, Eq, Structural, Debug)]
pub enum Mapping {
    /// Private anonymous memory.
    Anonymous,
    /// File-backed memory, or shared anonymous memory backed by a temporary file.
    File(FileMapping),
}

/// The mapping of the same file that starts `offset` bytes later.
pub open spec fn spec_offset(m: FileMapping, offset: int) -> FileMapping {
    if m.length <= offset {
        FileMapping { file: m.file, offset: (m.offset + m.length) as usize, length: 0 }
    } else {
        FileMapping {
            file: m.file,
            offset: (m.offset + offset) as usize,
            length: (m.length - offset) as usize,
        }
    }
}

impl FileMapping {
    /// A mapping of `length` bytes of `file` from the page-aligned `offset`.
    pub fn new(file: u64, offset: usize, length: usize) -> (r: FileMapping)
        requires
            offset % PAGE_SIZE == 0,
        ensures
            r == (FileMapping { file, offset, length }),
    {
        FileMapping { file, offset, length }
    }

    /// The part of this mapping that starts `offset` bytes later. Past the
    /// end it is empty and starts right after the mapped bytes.
    pub fn offset(&self, offset: usize) -> (r: FileMapping)
        requires
            self.length <= offset ==> self.offset + self.length <= usize::MAX && (self.offset
                + self.length) % PAGE_SIZE as int == 0,
            self.length > offset ==> self.offset + offset <= usize::MAX && (self.offset + offset)
                % PAGE_SIZE as int == 0,
        ensures
            r == spec_offset(*self, offset as int),
    {
        if self.length <= offset {
            FileMapping::new(self.file, self.offset + self.length, 0)
        } else {
            FileMapping::new(self.file, self.offset + offset, self.length - offset)
        }
    }
}

} // verus!
