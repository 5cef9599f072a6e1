//! Bidirectional converter between a 64-bit virtual address and its
//! page-table-walk fields (VA range selector, four 9-bit table indices and a
//! 12-bit page offset) under a fixed 4-level, 4KiB paging layout, together
//! with the synchronization policy that keeps an address editor and the
//! decomposed field editors mutually consistent.

pub mod codec;
pub mod controller;
pub mod digits;
