//! An early-boot bump allocator over one fixed address range.
//!
//! Byte allocations grow forward from the start of the range, page
//! allocations grow backward from its end, and the two never meet.
//!
//! The allocator is meant for one caller at a time: every operation that
//! changes it takes `&mut self`, so the fields are plain words.

pub mod align;
pub mod early;
pub mod history;
pub mod laws;
pub mod region;

pub use early::EarlyAllocator;
pub use region::{AllocError, AllocResult};
