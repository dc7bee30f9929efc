//! Memory management: raw page flags, memory blocks, address ranges,
//! file mappings and memory areas.
pub mod page_flags;
pub mod align;
pub mod mapping;
pub mod access;
pub mod address;
pub mod mm_area;
pub mod page_buffer;
pub mod raw_page;
