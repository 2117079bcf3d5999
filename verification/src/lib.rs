//! A double-ended bump allocator for early boot: byte-granularity
//! allocations grow forward from the low end of one contiguous region,
//! page-granularity allocations grow backward from the high end.

mod arith;
mod early;

pub use arith::is_power_of_two;
pub use arith::round_down;
pub use arith::round_up;
pub use early::AllocError;
pub use early::EarlyAllocator;
