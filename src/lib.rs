//! Physical page-frame allocation for a single-hart kernel: typed physical
//! addresses and page numbers, a page arena, two allocation strategies and
//! the owning frame guard.

pub mod address;
pub mod memory;
pub mod strategy;
pub mod stack_allocator;
pub mod linked_list_allocator;
pub mod frame_allocator;
pub mod allocation_laws;
pub mod console;
