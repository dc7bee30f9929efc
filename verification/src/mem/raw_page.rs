//! The per-page descriptor of the page array: buddy order, flags,
//! reference count and the data of the page's current user.
use crate::mem::page_flags::PageFlags;
use vstd::prelude::*;

verus! {

/// Per-page data of the slab allocator.
#[derive(Clone, Copy, PartialEq, Eq, Structural, Debug)]
pub struct SlabPageInner {
    pub allocated_count: u32,
    pub free_next: Option<usize>,
}

impl SlabPageInner {
    /// A slab page with nothing allocated and `free_next` as its first
    /// free object.
    pub fn new(free_next: Option<usize>) -> (r: SlabPageInner)
        ensures
            r == (SlabPageInner { allocated_count: 0, free_next }),
    {
        SlabPageInner { allocated_count: 0, free_next }
    }
}

/// Per-page data of the page cache.
#[derive(Clone, Copy, PartialEq, Eq, Structural, Debug)]
pub struct PageCacheInner {
    pub valid_size: usize,
}

/// Per-page data of the buddy allocator.
#[derive(Clone, Copy, PartialEq, Eq, Structural, Debug)]
pub struct BuddyPageInner {}

/// Who uses the page, with that user's data.
#[derive(Clone, Copy, PartialEq, Eq, Structural, Debug)]
pub enum PageType {
    Buddy(BuddyPageInner),
    Slab(SlabPageInner),
    PageCache(PageCacheInner),
}

impl PageType {
    /// The slab data of a slab page.
    pub fn slab_data(&mut self) -> (r: &mut SlabPageInner)
        requires
            *old(self) is Slab,
        ensures
            *r == (*old(self))->Slab_0,
            *final(self) == PageType::Slab(*final(r)),
    {
        match self {
            PageType::Slab(slab_data) => slab_data,
            _ => vstd::pervasive::unreached(),
        }
    }

    /// The page cache data of a cached page.
    pub fn page_cache_data(&mut self) -> (r: &mut PageCacheInner)
        requires
            *old(self) is PageCache,
        ensures
            *r == (*old(self))->PageCache_0,
            *final(self) == PageType::PageCache(*final(r)),
    {
        match self {
            PageType::PageCache(cache_data) => cache_data,
            _ => vstd::pervasive::unreached(),
        }
    }
}

/// The descriptor of one physical page.
pub struct RawPage {
    pub order: u32,
    pub flags: PageFlags,
    pub refcount: usize,
    pub shared_data: PageType,
}

impl RawPage {
    /// Whether the page exists.
    pub fn is_present(&self) -> (r: bool)
        ensures
            r == (self.flags@ & PageFlags::PRESENT == PageFlags::PRESENT),
    {
        self.flags.has(PageFlags::PRESENT)
    }

    /// Whether the page heads a block of the buddy allocator.
    pub fn is_buddy(&self) -> (r: bool)
        ensures
            r == (self.flags@ & PageFlags::BUDDY == PageFlags::BUDDY),
    {
        self.flags.has(PageFlags::BUDDY)
    }

    /// Whether the page's block is free.
    pub fn is_free(&self) -> (r: bool)
        ensures
            r == (self.flags@ & PageFlags::FREE == PageFlags::FREE),
    {
        self.flags.has(PageFlags::FREE)
    }

    /// Whether the cached page was written since it was last saved.
    pub fn is_dirty(&self) -> (r: bool)
        ensures
            r == (self.flags@ & PageFlags::DIRTY == PageFlags::DIRTY),
    {
        self.flags.has(PageFlags::DIRTY)
    }

    pub fn set_buddy(&mut self)
        ensures
            final(self).flags@ == old(self).flags@ | PageFlags::BUDDY,
            final(self).order == old(self).order,
            final(self).shared_data == old(self).shared_data,
    {
        self.flags.set(PageFlags::BUDDY);
    }

    pub fn set_free(&mut self)
        ensures
            final(self).flags@ == old(self).flags@ | PageFlags::FREE,
            final(self).order == old(self).order,
            final(self).shared_data == old(self).shared_data,
    {
        self.flags.set(PageFlags::FREE);
    }

    pub fn set_dirty(&mut self)
        ensures
            final(self).flags@ == old(self).flags@ | PageFlags::DIRTY,
            final(self).order == old(self).order,
            final(self).shared_data == old(self).shared_data,
    {
        self.flags.set(PageFlags::DIRTY);
    }

    pub fn clear_buddy(&mut self)
        ensures
            final(self).flags@ == old(self).flags@ & !PageFlags::BUDDY,
            final(self).order == old(self).order,
            final(self).shared_data == old(self).shared_data,
    {
        self.flags.clear(PageFlags::BUDDY);
    }

    pub fn clear_free(&mut self)
        ensures
            final(self).flags@ == old(self).flags@ & !PageFlags::FREE,
            final(self).order == old(self).order,
            final(self).shared_data == old(self).shared_data,
    {
        self.flags.clear(PageFlags::FREE);
    }

    pub fn clear_dirty(&mut self)
        ensures
            final(self).flags@ == old(self).flags@ & !PageFlags::DIRTY,
            final(self).order == old(self).order,
            final(self).shared_data == old(self).shared_data,
    {
        self.flags.clear(PageFlags::DIRTY);
    }

    /// Set the order of the buddy block the page heads.
    pub fn set_order(&mut self, order: u32)
        ensures
            final(self).order == order,
            final(self).flags@ == old(self).flags@,
            final(self).shared_data == old(self).shared_data,
    {
        self.order = order;
    }

    /// Hand the page to the slab allocator with `first_free` as its first
    /// free object.
    pub fn slab_init(&mut self, first_free: Option<usize>)
        ensures
            final(self).shared_data == PageType::Slab(
                SlabPageInner { allocated_count: 0, free_next: first_free },
            ),
            final(self).flags@ == old(self).flags@,
            final(self).order == old(self).order,
    {
        self.shared_data = PageType::Slab(SlabPageInner::new(first_free));
    }

    /// Hand the page to the page cache with nothing valid in it.
    pub fn cache_init(&mut self)
        ensures
            final(self).shared_data == PageType::PageCache(PageCacheInner { valid_size: 0 }),
            final(self).flags@ == old(self).flags@,
            final(self).order == old(self).order,
    {
        self.shared_data = PageType::PageCache(PageCacheInner { valid_size: 0 });
    }
}

} // verus!
