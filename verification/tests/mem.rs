use eonix::mem::access::MemoryBlock;
use eonix::mem::address::{VAddr, VAddrExt, VRange, VRangeExt};
use eonix::mem::align::{is_page_aligned, page_align_down, page_align_up, PAGE_SIZE};
use eonix::mem::mapping::{FileMapping, Mapping, Permission};
use eonix::mem::mm_area::{
    fault_done_attr, handle_cow, handle_mmap, FaultPlan, MMArea, MmapFault, PageChoice, PA_ACCESSED,
    PA_COPY_ON_WRITE, PA_DIRTY, PA_MAPPED, PA_PRESENT, PA_WRITE,
};
use eonix::mem::page_buffer::{FillResult, PageBuffer};
use eonix::mem::page_flags::PageFlags;
use eonix::mem::raw_page::{BuddyPageInner, PageCacheInner, PageType, RawPage, SlabPageInner};

#[test]
fn page_align_rounds() {
    assert_eq!(page_align_up(0), 0);
    assert_eq!(page_align_up(1), 4096);
    assert_eq!(page_align_up(4096), 4096);
    assert_eq!(page_align_up(4097), 8192);
    assert_eq!(page_align_down(4095), 0);
    assert_eq!(page_align_down(8191), 4096);
    assert!(is_page_aligned(8192));
    assert!(!is_page_aligned(8193));
    assert_eq!(PAGE_SIZE, 4096);
}

#[test]
fn page_flags_set_and_clear() {
    let mut f = PageFlags::new(0);
    assert!(!f.has(PageFlags::PRESENT));
    f.set(PageFlags::PRESENT | PageFlags::DIRTY);
    assert!(f.has(PageFlags::PRESENT));
    assert!(f.has(PageFlags::DIRTY));
    assert!(f.has(PageFlags::PRESENT | PageFlags::DIRTY));
    f.clear(PageFlags::DIRTY);
    assert!(!f.has(PageFlags::DIRTY));
    assert!(f.has(PageFlags::PRESENT));
}

#[test]
fn memory_block_split() {
    let b = MemoryBlock::new(0x1000, 0x3000);
    assert_eq!(b.addr(), 0x1000);
    assert_eq!(b.len(), 0x3000);
    let (l, r) = b.split_at(0x1000);
    assert_eq!((l.addr(), l.len()), (0x1000, 0x1000));
    assert_eq!((r.addr(), r.len()), (0x2000, 0x2000));
    assert!(b.is_aligned_to(0x1000));
    assert!(!b.is_aligned_to(0x2000));
}

#[test]
fn vaddr_user_and_kernel() {
    assert!(VAddr { addr: 0x1000 }.is_user());
    let r = VRange::new(0x1000, 0x3000);
    assert!(r.is_user());
    assert!(!r.is_kernel());
    assert_eq!(r.grow(0x1000), VRange { start: 0x1000, end: 0x4000 });
    assert_eq!(r.shrink(0x1000), VRange { start: 0x1000, end: 0x2000 });
}

#[test]
fn file_mapping_offset_moves_forward() {
    let m = FileMapping::new(7, 0x1000, 0x3000);
    let n = m.offset(0x1000);
    assert_eq!(n, FileMapping { file: 7, offset: 0x2000, length: 0x2000 });
    let past = m.offset(0x5000);
    assert_eq!(past.offset, 0x4000);
    assert_eq!(past.length, 0);
}

#[test]
fn split_area_in_the_middle() {
    let area = MMArea::new(
        VRange::new(0x1000, 0x4000),
        Mapping::File(FileMapping::new(3, 0, 0x3000)),
        Permission::read_write(),
        false,
    );
    let (l, r) = area.split(0x2000);
    let l = l.unwrap();
    let r = r.unwrap();
    assert_eq!(l.range(), VRange { start: 0x1000, end: 0x2000 });
    assert_eq!(r.range(), VRange { start: 0x2000, end: 0x4000 });
    assert_eq!(l.mapping, area.mapping);
    assert_eq!(r.mapping, Mapping::File(FileMapping { file: 3, offset: 0x1000, length: 0x2000 }));
}

#[test]
fn split_area_outside() {
    let area = MMArea::new(VRange::new(0x1000, 0x2000), Mapping::Anonymous, Permission::read_write(), true);
    assert_eq!(area.split(0x1000), (None, Some(area)));
    assert_eq!(area.split(0x3000), (Some(area), None));
}

#[test]
fn grow_area() {
    let mut area = MMArea::new(VRange::new(0x1000, 0x2000), Mapping::Anonymous, Permission::read_write(), false);
    area.grow(0x1000);
    assert_eq!(area.range(), VRange { start: 0x1000, end: 0x3000 });
}

#[test]
fn cow_fault_choices() {
    let attr = PA_PRESENT | PA_COPY_ON_WRITE | PA_ACCESSED;
    let (a, p) = handle_cow(attr, true, true, false);
    assert_eq!(p, PageChoice::Keep);
    assert_eq!(a, PA_PRESENT | PA_ACCESSED | PA_WRITE);
    let (a, p) = handle_cow(attr, true, false, true);
    assert_eq!(p, PageChoice::Zeroed);
    assert_eq!(a, PA_PRESENT | PA_WRITE);
    let (a, p) = handle_cow(attr, false, false, false);
    assert_eq!(p, PageChoice::CopyOfCurrent);
    assert_eq!(a, PA_PRESENT);
}

#[test]
fn mmap_fault_private_read_and_write() {
    let area = MMArea::new(
        VRange::new(0x1000, 0x3000),
        Mapping::File(FileMapping::new(1, 0x2000, 0x1800)),
        Permission::read_write(),
        false,
    );
    let f = handle_mmap(&area, PA_MAPPED, 0x1000, false);
    assert_eq!(f.file_offset, 0x3000);
    assert_eq!(f.page, PageChoice::CopyOfCache { len: 0x800 });
    assert!(!f.set_dirty);
    assert_eq!(f.attr, PA_COPY_ON_WRITE | PA_PRESENT);
    let g = handle_mmap(&area, 0, 0, true);
    assert_eq!(g.page, PageChoice::CopyOfCache { len: 0x1000 });
    assert_eq!(g.attr, PA_WRITE | PA_PRESENT);
}

#[test]
fn mmap_fault_shared_write() {
    let area = MMArea::new(
        VRange::new(0x1000, 0x3000),
        Mapping::File(FileMapping::new(1, 0, 0x2000)),
        Permission::read_write(),
        true,
    );
    let f = handle_mmap(&area, 0, 0, true);
    assert_eq!(f.page, PageChoice::SharedCache);
    assert!(f.set_dirty);
    assert_eq!(f.attr, PA_WRITE | PA_PRESENT);
    let r = handle_mmap(&area, 0, 0, false);
    assert_eq!(r.page, PageChoice::SharedCache);
    assert!(r.set_dirty);
}

#[test]
fn fault_done_attribute() {
    let a = fault_done_attr(PA_PRESENT, true);
    assert_ne!(a & PA_PRESENT, 0);
    assert_ne!(a & PA_ACCESSED, 0);
    assert_ne!(a & PA_DIRTY, 0);
    let r = fault_done_attr(PA_PRESENT, false);
    assert_ne!(r & PA_ACCESSED, 0);
    assert_eq!(r & PA_DIRTY, 0);
}

#[test]
fn page_buffer_fills_to_the_page() {
    let mut b = PageBuffer::new();
    assert_eq!(b.total(), 4096);
    assert_eq!(b.fill(&[1, 2, 3]), FillResult::Done(3));
    assert_eq!(b.wrote(), 3);
    assert_eq!(b.data(), vec![1, 2, 3]);
    let big = vec![9u8; 5000];
    assert_eq!(b.fill(&big), FillResult::Partial(4093));
    assert_eq!(b.wrote(), 4096);
    assert_eq!(b.fill(&[1]), FillResult::Full);
}

#[test]
fn raw_page_flags_and_data() {
    let mut p = RawPage {
        order: 0,
        flags: PageFlags::new(0),
        refcount: 0,
        shared_data: PageType::Buddy(BuddyPageInner {}),
    };
    p.set_buddy();
    p.set_free();
    assert!(p.is_buddy() && p.is_free());
    p.clear_free();
    assert!(!p.is_free());
    p.set_order(3);
    assert_eq!(p.order, 3);
    p.slab_init(Some(5));
    assert_eq!(p.shared_data, PageType::Slab(SlabPageInner::new(Some(5))));
    p.shared_data.slab_data().allocated_count = 2;
    assert_eq!(p.shared_data.slab_data().allocated_count, 2);
    p.cache_init();
    assert_eq!(p.shared_data, PageType::PageCache(PageCacheInner { valid_size: 0 }));
    p.set_dirty();
    assert!(p.is_dirty());
    p.clear_dirty();
    assert!(!p.is_dirty());
}

#[test]
fn fault_on_a_private_copy_on_write_page() {
    let area = MMArea::new(
        VRange::new(0x1000, 0x3000),
        Mapping::Anonymous,
        Permission::read_write(),
        false,
    );
    let attr = PA_PRESENT | PA_COPY_ON_WRITE | PA_ACCESSED;
    let kept = area.handle(attr, 0, true, true, false);
    assert_eq!(
        kept,
        FaultPlan {
            cow: Some(PageChoice::Keep),
            mmap: None,
            attr: PA_PRESENT | PA_WRITE | PA_ACCESSED | PA_DIRTY,
        }
    );
    let copied = area.handle(attr, 0, true, false, true);
    assert_eq!(copied.cow, Some(PageChoice::Zeroed));
    assert_eq!(copied.attr, PA_PRESENT | PA_WRITE | PA_ACCESSED | PA_DIRTY);
    let plain = area.handle(PA_PRESENT | PA_WRITE, 0, false, true, false);
    assert_eq!(plain, FaultPlan { cow: None, mmap: None, attr: PA_PRESENT | PA_WRITE | PA_ACCESSED });
}

#[test]
fn fault_on_a_file_page_not_loaded_yet() {
    let area = MMArea::new(
        VRange::new(0x1000, 0x3000),
        Mapping::File(FileMapping::new(1, 0x2000, 0x1800)),
        Permission::read_write(),
        false,
    );
    let plan = area.handle(PA_MAPPED, 0x1000, false, true, false);
    assert_eq!(plan.cow, None);
    assert_eq!(
        plan.mmap,
        Some(MmapFault {
            file_offset: 0x3000,
            page: PageChoice::CopyOfCache { len: 0x800 },
            set_dirty: false,
            attr: PA_PRESENT | PA_COPY_ON_WRITE,
        })
    );
    assert_eq!(plan.attr, PA_PRESENT | PA_COPY_ON_WRITE | PA_ACCESSED);
}
