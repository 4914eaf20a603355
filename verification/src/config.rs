//! Sizes that the record layouts are built from.

use vstd::prelude::*;

verus! {

/// Number of recognised syscall ids; a syscall id is an index below this.
pub const MAX_SYSCALL_NUM: usize = 500;

/// Microseconds in one second.
pub const MICROS_PER_SEC: usize = 1_000_000;

/// Bytes in a serialised timestamp: two words.
pub const TIME_VAL_SIZE: usize = 16;

/// Where the counters start in a serialised task record: behind the status
/// tag and the three bytes that align the first counter.
pub const COUNTERS_OFFSET: usize = 4;

/// Where the counters end in a serialised task record.
pub const COUNTERS_END: usize = 2004;

/// Where the running time starts in a serialised task record: behind the
/// counters and the four bytes that align a word.
pub const TIME_OFFSET: usize = 2008;

/// Bytes in a serialised task record.
pub const TASK_INFO_SIZE: usize = 2016;

} // verus!
