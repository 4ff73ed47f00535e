//! Process-facing system calls of a small teaching kernel: exit, yield, time
//! query, task telemetry and anonymous memory mapping, over an explicit model
//! of the calling task's address space.

pub mod config;
pub mod encoding;
pub mod laws;
pub mod mm;
pub mod process;
pub mod task;

pub use config::{MAX_SYSCALL_NUM, PAGE_SIZE};
pub use mm::{decode_permission, MapPermission, MemorySet, PageTableEntry};
pub use process::{
    sys_exit, sys_get_time, sys_mmap, sys_munmap, sys_set_priority, sys_task_info, sys_yield,
    TaskInfo, TimeVal, TASK_INFO_SIZE, TIME_VAL_SIZE,
};
pub use task::{Task, TaskStatus};
