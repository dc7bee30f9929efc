//! Memory areas of a process address space: splitting an area and the
//! decisions taken on a page fault inside it.
use crate::mem::address::VRange;
use crate::mem::align::PAGE_SIZE;
use crate::mem::mapping::{spec_offset, FileMapping, Mapping, Permission};
use vstd::prelude::*;

verus! {

/// A contiguous range of a process address space with one backing and one
/// set of rights.
#[derive(Clone, Copy, PartialEq, Eq, Structural, Debug)]
pub struct MMArea {
    pub range: VRange,
    pub mapping: Mapping,
    pub permission: Permission,
    pub is_shared: bool,
}

/// Whether splitting `area` at `at` is well defined: `at` is page aligned,
/// and inside the area the file mapping of the right part starts at a
/// page-aligned offset.
pub open spec fn split_ok(area: MMArea, at: usize) -> bool {
    &&& at % PAGE_SIZE == 0
    &&& area.spec_range().start < at < area.spec_range().end ==> match area.mapping {
        Mapping::Anonymous => true,
        Mapping::File(m) => {
            let diff = at - area.spec_range().start;
            if m.length <= diff {
                m.offset + m.length <= usize::MAX && (m.offset + m.length) % PAGE_SIZE as int == 0
            } else {
                m.offset + diff <= usize::MAX && (m.offset + diff) % PAGE_SIZE as int == 0
            }
        },
    }
}

impl MMArea {
    pub open spec fn spec_range(&self) -> VRange {
        self.range
    }

    pub fn new(range: VRange, mapping: Mapping, permission: Permission, is_shared: bool) -> (r:
        MMArea)
        ensures
            r.spec_range() == range,
            r.mapping == mapping,
            r.permission == permission,
            r.is_shared == is_shared,
    {
        MMArea { range, mapping, permission, is_shared }
    }

    pub fn range(&self) -> (r: VRange)
        ensures
            r == self.spec_range(),
    {
        self.range
    }

    /// Grow the area by `count` bytes at its end.
    pub fn grow(&mut self, count: usize)
        requires
            old(self).spec_range().end + count <= usize::MAX,
        ensures
            final(self).spec_range() == (VRange {
                start: old(self).spec_range().start,
                end: (old(self).spec_range().end + count) as usize,
            }),
            final(self).mapping == old(self).mapping,
            final(self).permission == old(self).permission,
            final(self).is_shared == old(self).is_shared,
    {
        self.range = self.range.grow(count);
    }

    /// Split the area at `at`. An area that ends at or before `at` comes
    /// back whole on the left; one that starts at or after `at` whole on
    /// the right. Otherwise the left part keeps `start..at` and the right
    /// part gets `at..end`, with its file mapping moved forward by the
    /// size of the left part.
    pub fn split(self, at: usize) -> (r: (Option<MMArea>, Option<MMArea>))
        requires
            split_ok(self, at),
        ensures
            at <= self.spec_range().start ==> r == (None::<MMArea>, Some(self)),
            self.spec_range().start < at && self.spec_range().end <= at ==> r == (
                Some(self),
                None::<MMArea>,
            ),
            self.spec_range().start < at < self.spec_range().end ==> ({
                let diff = at - self.spec_range().start;
                &&& r.0 matches Some(left) && left.spec_range() == (VRange {
                    start: self.spec_range().start,
                    end: at,
                }) && left.mapping == self.mapping && left.permission == self.permission
                    && left.is_shared == self.is_shared
                &&& r.1 matches Some(right) && right.spec_range() == (VRange {
                    start: at,
                    end: self.spec_range().end,
                }) && right.permission == self.permission && right.is_shared == self.is_shared
                    && right.mapping == match self.mapping {
                    Mapping::Anonymous => Mapping::Anonymous,
                    Mapping::File(m) => Mapping::File(spec_offset(m, diff)),
                }
            }),
    {
        if at <= self.range.start {
            return (None, Some(self));
        }
        if self.range.end <= at {
            return (Some(self), None);
        }
        let diff = at - self.range.start;
        let mapping = match self.mapping {
            Mapping::Anonymous => Mapping::Anonymous,
            Mapping::File(m) => Mapping::File(m.offset(diff)),
        };
        let right = MMArea {
            range: VRange { start: at, end: self.range.end },
            permission: self.permission,
            mapping,
            is_shared: self.is_shared,
        };
        let left = MMArea {
            range: self.range.shrink(self.range.end - at),
            mapping: self.mapping,
            permission: self.permission,
            is_shared: self.is_shared,
        };
        (Some(left), Some(right))
    }
}

/// The left and right parts of a split cover exactly the area they came
/// from, with the same rights.
pub proof fn lemma_split_covers(area: MMArea, at: usize, left: MMArea, right: MMArea)
    requires
        split_ok(area, at),
        area.spec_range().start < at < area.spec_range().end,
        left.spec_range() == (VRange { start: area.spec_range().start, end: at }),
        right.spec_range() == (VRange { start: at, end: area.spec_range().end }),
    ensures
        left.spec_range().start == area.spec_range().start,
        left.spec_range().end == right.spec_range().start,
        right.spec_range().end == area.spec_range().end,
        (left.spec_range().end - left.spec_range().start) + (right.spec_range().end
            - right.spec_range().start) == area.spec_range().end - area.spec_range().start,
{
}

/// Page table entry attribute bits.
pub const PA_PRESENT: u64 = 1;
pub const PA_READ: u64 = 2;
pub const PA_WRITE: u64 = 4;
pub const PA_EXECUTE: u64 = 8;
pub const PA_USER: u64 = 16;
pub const PA_ACCESSED: u64 = 32;
pub const PA_DIRTY: u64 = 64;
pub const PA_GLOBAL: u64 = 128;
pub const PA_COPY_ON_WRITE: u64 = 256;
pub const PA_MAPPED: u64 = 512;

/// Which page a faulting entry ends up pointing to.
#[derive(Clone, Copy, PartialEq, Eq, Structural, Debug)]
pub enum PageChoice {
    /// The page it points to now.
    Keep,
    /// A new zeroed page.
    Zeroed,
    /// A new page with a copy of the current page.
    CopyOfCurrent,
    /// The page-cache page of the file, shared.
    SharedCache,
    /// A new zeroed page with the first `len` bytes of the page-cache page.
    CopyOfCache { len: usize },
}

/// Attribute `attr` with `bit` set to `on`.
pub open spec fn with_bit(attr: u64, bit: u64, on: bool) -> u64 {
    if on {
        attr | bit
    } else {
        attr & !bit
    }
}

/// A write fault on a copy-on-write page: the page becomes writable as the
/// area allows. An exclusively held page is kept; otherwise a copy is made
/// (a zeroed page when the entry points to the shared empty page) and the
/// entry is marked not accessed.
pub open spec fn spec_cow(attr: u64, area_write: bool, exclusive: bool, is_empty_page: bool) -> (
    u64,
    PageChoice,
) {
    let a = with_bit(attr & !PA_COPY_ON_WRITE, PA_WRITE, area_write);
    if exclusive {
        (a, PageChoice::Keep)
    } else {
        (
            a & !PA_ACCESSED,
            if is_empty_page {
                PageChoice::Zeroed
            } else {
                PageChoice::CopyOfCurrent
            },
        )
    }
}

/// Decide a copy-on-write fault. The entry must be copy-on-write.
pub fn handle_cow(attr: u64, area_write: bool, exclusive: bool, is_empty_page: bool) -> (r: (
    u64,
    PageChoice,
))
    requires
        attr & PA_COPY_ON_WRITE != 0,
    ensures
        r == spec_cow(attr, area_write, exclusive, is_empty_page),
{
    let mut a = attr & !PA_COPY_ON_WRITE;
    if area_write {
        a = a | PA_WRITE;
    } else {
        a = a & !PA_WRITE;
    }
    if exclusive {
        return (a, PageChoice::Keep);
    }
    let page = if is_empty_page {
        PageChoice::Zeroed
    } else {
        PageChoice::CopyOfCurrent
    };
    (a & !PA_ACCESSED, page)
}

/// What a fault on a not-yet-loaded page of a file mapping does.
#[derive(Clone, Copy, PartialEq, Eq, Structural, Debug)]
pub struct MmapFault {
    /// Offset in the file of the page to fetch.
    pub file_offset: usize,
    /// The page the entry points to afterwards.
    pub page: PageChoice,
    /// Whether the page-cache page is marked dirty.
    pub set_dirty: bool,
    /// The entry's attributes afterwards.
    pub attr: u64,
}

/// The fault at `offset` in file mapping `m`. At most a page of file bytes
/// counts; a shorter tail (the end of a segment) is copied into a zeroed
/// page. A read maps the cache page itself, writable for a shared writable
/// area (the page is assumed dirty), copy-on-write for a private writable
/// one. A write to a shared area maps the cache page and dirties it; a
/// write to a private area copies it. The entry becomes present and no
/// longer waits for the file.
pub open spec fn spec_mmap_fault(
    m: FileMapping,
    offset: usize,
    write: bool,
    area_write: bool,
    is_shared: bool,
    attr: u64,
) -> MmapFault {
    let cnt = if m.length - offset < 0x1000 {
        (m.length - offset) as usize
    } else {
        0x1000usize
    };
    let (page, dirty, a) = if !write {
        let page = if cnt < PAGE_SIZE {
            PageChoice::CopyOfCache { len: cnt }
        } else {
            PageChoice::SharedCache
        };
        if area_write {
            if is_shared {
                (page, true, attr | PA_WRITE)
            } else {
                (page, false, attr | PA_COPY_ON_WRITE)
            }
        } else {
            (page, false, attr)
        }
    } else if is_shared {
        (PageChoice::SharedCache, true, attr | PA_WRITE)
    } else {
        (PageChoice::CopyOfCache { len: cnt }, false, attr | PA_WRITE)
    };
    MmapFault {
        file_offset: (m.offset + offset) as usize,
        page,
        set_dirty: dirty,
        attr: (a | PA_PRESENT) & !PA_MAPPED,
    }
}

/// The attribute bits a fault sets or keeps, for any entry `a`.
proof fn lemma_fault_bits(a: u64)
    ensures
        ((a | 1) & !512u64) & 1 != 0,
        ((a | 1) & !512u64) & 512 == 0,
        ((a | 1) & !512u64) & 4 == a & 4,
        ((a | 1) & !512u64) & 256 == a & 256,
        (((a | 4) | 1) & !512u64) & 1 != 0,
        (((a | 4) | 1) & !512u64) & 512 == 0,
        (((a | 256) | 1) & !512u64) & 1 != 0,
        (((a | 256) | 1) & !512u64) & 512 == 0,
        (((a | 4) | 1) & !512u64) & 4 != 0,
        (((a | 4) | 1) & !512u64) & 256 == a & 256,
        (((a | 256) | 1) & !512u64) & 256 != 0,
        (((a | 256) | 1) & !512u64) & 4 == a & 4,
        ((a | 1) & !512u64) & !0x305u64 == a & !0x305u64,
        (((a | 4) | 1) & !512u64) & !0x305u64 == a & !0x305u64,
        (((a | 256) | 1) & !512u64) & !0x305u64 == a & !0x305u64,
{
    assert(((a | 1) & !512u64) & 1 != 0) by (bit_vector);
    assert(((a | 1) & !512u64) & 512 == 0) by (bit_vector);
    assert(((a | 1) & !512u64) & 4 == a & 4) by (bit_vector);
    assert(((a | 1) & !512u64) & 256 == a & 256) by (bit_vector);
    assert((((a | 4) | 1) & !512u64) & 1 != 0) by (bit_vector);
    assert((((a | 4) | 1) & !512u64) & 512 == 0) by (bit_vector);
    assert((((a | 256) | 1) & !512u64) & 1 != 0) by (bit_vector);
    assert((((a | 256) | 1) & !512u64) & 512 == 0) by (bit_vector);
    assert((((a | 4) | 1) & !512u64) & 4 != 0) by (bit_vector);
    assert((((a | 4) | 1) & !512u64) & 256 == a & 256) by (bit_vector);
    assert((((a | 256) | 1) & !512u64) & 256 != 0) by (bit_vector);
    assert((((a | 256) | 1) & !512u64) & 4 == a & 4) by (bit_vector);
    assert(((a | 1) & !512u64) & !0x305u64 == a & !0x305u64) by (bit_vector);
    assert((((a | 4) | 1) & !512u64) & !0x305u64 == a & !0x305u64) by (bit_vector);
    assert((((a | 256) | 1) & !512u64) & !0x305u64 == a & !0x305u64) by (bit_vector);
}

/// What a fault on a page of a file mapping may do to the entry and the
/// file, for every fault: the entry becomes present and stops waiting for
/// the file, its bits other than write, copy-on-write, present and mapped
/// stay, and the page comes from the file at the mapping's offset.
/// - A read of an area that may not be written never makes the entry
///   writable or copy-on-write, and never dirties the file, shared or not.
/// - A read of a writable shared area makes the entry writable and the file
///   page dirty; of a writable private area, copy-on-write without write.
/// - A write makes the entry writable; it dirties the file page, which it
///   maps itself, exactly when the area is shared, and otherwise maps a
///   copy of at most a page of the file.
/// - A read maps the file page itself when a whole page of the file is
///   left, and otherwise a copy of the bytes left.
pub proof fn law_mmap_fault_access(
    m: FileMapping,
    offset: usize,
    write: bool,
    area_write: bool,
    is_shared: bool,
    attr: u64,
)
    requires
        offset < m.length,
        m.offset + offset <= usize::MAX,
    ensures
        ({
            let f = spec_mmap_fault(m, offset, write, area_write, is_shared, attr);
            let left = m.length - offset;
            &&& f.attr & PA_PRESENT != 0
            &&& f.attr & PA_MAPPED == 0
            &&& f.attr & !0x305u64 == attr & !0x305u64
            &&& f.file_offset == m.offset + offset
            &&& !write && !area_write ==> f.attr & PA_WRITE == attr & PA_WRITE && f.attr & PA_COPY_ON_WRITE
                == attr & PA_COPY_ON_WRITE && !f.set_dirty
            &&& !write && area_write && is_shared ==> f.attr & PA_WRITE != 0 && f.set_dirty
            &&& !write && area_write && !is_shared ==> f.attr & PA_COPY_ON_WRITE != 0 && f.attr & PA_WRITE
                == attr & PA_WRITE && !f.set_dirty
            &&& write ==> f.attr & PA_WRITE != 0 && (f.set_dirty <==> is_shared)
            &&& write && is_shared ==> f.page == PageChoice::SharedCache
            &&& write && !is_shared ==> f.page == PageChoice::CopyOfCache {
                len: if left < 4096 { left as usize } else { 4096 },
            }
            &&& !write && left >= 4096 ==> f.page == PageChoice::SharedCache
            &&& !write && left < 4096 ==> f.page == PageChoice::CopyOfCache { len: left as usize }
        }),
{
    lemma_fault_bits(attr);
    assert(PAGE_SIZE == 4096);
    let f = spec_mmap_fault(m, offset, write, area_write, is_shared, attr);
    if !write && !area_write {
        assert(f.attr == (attr | 1) & !512u64);
    } else if !write && is_shared || write {
        assert(f.attr == ((attr | 4) | 1) & !512u64);
    } else {
        assert(f.attr == ((attr | 256) | 1) & !512u64);
    }
    assert(PA_PRESENT == 1 && PA_WRITE == 4 && PA_COPY_ON_WRITE == 256 && PA_MAPPED == 512);
    assert(f.attr & PA_PRESENT == f.attr & 1 && f.attr & PA_MAPPED == f.attr & 512);
    assert(f.attr & PA_WRITE == f.attr & 4 && f.attr & PA_COPY_ON_WRITE == f.attr & 256);
    assert(attr & PA_WRITE == attr & 4 && attr & PA_COPY_ON_WRITE == attr & 256);
}

/// Decide a fault at `offset` in the file mapping of `area`.
pub fn handle_mmap(area: &MMArea, attr: u64, offset: usize, write: bool) -> (r: MmapFault)
    requires
        area.mapping is File,
        offset < area.mapping->File_0.length,
        area.mapping->File_0.offset + offset <= usize::MAX,
    ensures
        r == spec_mmap_fault(
            area.mapping->File_0,
            offset,
            write,
            area.permission.write,
            area.is_shared,
            attr,
        ),
{
    let m = match area.mapping {
        Mapping::File(m) => m,
        Mapping::Anonymous => vstd::pervasive::unreached(),
    };
    let file_offset = m.offset + offset;
    let cnt = if m.length - offset < 0x1000 {
        m.length - offset
    } else {
        0x1000
    };
    let mut a = attr;
    let mut set_dirty = false;
    let page;
    if !write {
        page = if cnt < PAGE_SIZE {
            PageChoice::CopyOfCache { len: cnt }
        } else {
            PageChoice::SharedCache
        };
        if area.permission.write {
            if area.is_shared {
                set_dirty = true;
                a = a | PA_WRITE;
            } else {
                a = a | PA_COPY_ON_WRITE;
            }
        }
    } else {
        if area.is_shared {
            set_dirty = true;
            page = PageChoice::SharedCache;
        } else {
            page = PageChoice::CopyOfCache { len: cnt };
        }
        a = a | PA_WRITE;
    }
    MmapFault { file_offset, page, set_dirty, attr: (a | PA_PRESENT) & !PA_MAPPED }
}

/// The attributes of an entry after its fault is handled: accessed, and
/// dirty for a write.
pub fn fault_done_attr(attr: u64, write: bool) -> (r: u64)
    ensures
        r == if write {
            attr | PA_ACCESSED | PA_DIRTY
        } else {
            attr | PA_ACCESSED
        },
{
    let a = attr | PA_ACCESSED;
    if write {
        a | PA_DIRTY
    } else {
        a
    }
}

/// What handling a page fault does to an entry: the copy-on-write page
/// choice if the entry was copy-on-write, the file fetch if it still
/// waited for the file, and its attributes afterwards.
#[derive(Clone, Copy, PartialEq, Eq, Structural, Debug)]
pub struct FaultPlan {
    pub cow: Option<PageChoice>,
    pub mmap: Option<MmapFault>,
    pub attr: u64,
}

/// The attributes after the copy-on-write step of a fault.
pub open spec fn after_cow(attr: u64, area_write: bool, exclusive: bool, is_empty_page: bool) -> u64 {
    if attr & PA_COPY_ON_WRITE != 0 {
        spec_cow(attr, area_write, exclusive, is_empty_page).0
    } else {
        attr
    }
}

impl MMArea {
    /// Handle a fault at `offset` in the area on an entry with `attr`: a
    /// copy-on-write entry is resolved first (`exclusive`: the page has no
    /// other user; `is_empty_page`: it is the shared zero page), then an
    /// entry waiting for its file is fetched, and the entry ends accessed,
    /// and dirty for a write.
    pub fn handle(&self, attr: u64, offset: usize, write: bool, exclusive: bool, is_empty_page: bool) -> (r: FaultPlan)
        requires
            after_cow(attr, self.permission.write, exclusive, is_empty_page) & PA_MAPPED != 0 ==> {
                &&& self.mapping is File
                &&& offset < self.mapping->File_0.length
                &&& self.mapping->File_0.offset + offset <= usize::MAX
            },
        ensures
            ({
                let a1 = after_cow(attr, self.permission.write, exclusive, is_empty_page);
                let m = spec_mmap_fault(
                    self.mapping->File_0,
                    offset,
                    write,
                    self.permission.write,
                    self.is_shared,
                    a1,
                );
                let a2 = if a1 & PA_MAPPED != 0 {
                    m.attr
                } else {
                    a1
                };
                &&& r.cow == (if attr & PA_COPY_ON_WRITE != 0 {
                    Some(spec_cow(attr, self.permission.write, exclusive, is_empty_page).1)
                } else {
                    None
                })
                &&& r.mmap == (if a1 & PA_MAPPED != 0 {
                    Some(m)
                } else {
                    None
                })
                &&& r.attr == if write {
                    a2 | PA_ACCESSED | PA_DIRTY
                } else {
                    a2 | PA_ACCESSED
                }
            }),
    {
        let mut a = attr;
        let mut cow: Option<PageChoice> = None;
        if a & PA_COPY_ON_WRITE != 0 {
            let (na, page) = handle_cow(a, self.permission.write, exclusive, is_empty_page);
            a = na;
            cow = Some(page);
        }
        let mut mmap: Option<MmapFault> = None;
        if a & PA_MAPPED != 0 {
            let f = handle_mmap(self, a, offset, write);
            a = f.attr;
            mmap = Some(f);
        }
        FaultPlan { cow, mmap, attr: fault_done_attr(a, write) }
    }
}

} // verus!
