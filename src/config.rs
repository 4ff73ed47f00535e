use vstd::prelude::*;

verus! {

/// Size in bytes of one virtual or physical page.
pub const PAGE_SIZE: usize = 4096;

/// Number of distinct syscall ids whose invocations a task counts.
pub const MAX_SYSCALL_NUM: usize = 500;

} // verus!
