use vstd::prelude::*;
use crate::config::MAX_SYSCALL_NUM;
use crate::mm::MemorySet;

verus! {

/// Scheduling state of a task.
#[derive(Clone, Copy, Debug, PartialEq, Eq, Structural)]
pub enum TaskStatus {
    UnInit,
    Ready,
    Running,
    Exited,
}

impl TaskStatus {
    pub open spec fn code_spec(self) -> nat {
        match self {
            TaskStatus::UnInit => 0,
            TaskStatus::Ready => 1,
            TaskStatus::Running => 2,
            TaskStatus::Exited => 3,
        }
    }

    /// The status as the number user space reads.
    pub fn code(&self) -> (r: u32)
        ensures
            r as nat == self.code_spec(),
    {
        match self {
            TaskStatus::UnInit => 0,
            TaskStatus::Ready => 1,
            TaskStatus::Running => 2,
            TaskStatus::Exited => 3,
        }
    }
}

/// The context of the task that makes a system call: its scheduling state,
/// telemetry counters and address space.
pub struct Task {
    pub status: TaskStatus,
    pub exit_code: Option<i32>,
    /// Microsecond counter value when the task first ran.
    pub start_time: usize,
    /// Invocations of each syscall id so far.
    pub syscall_times: [u32; MAX_SYSCALL_NUM],
    pub memory_set: MemorySet,
}

impl Task {
    pub open spec fn wf(self) -> bool {
        self.memory_set.wf()
    }

    /// A running task started at `start_time`, with no syscall counted and an
    /// empty address space of `num_pages` pages over `num_frames` frames.
    pub fn new(start_time: usize, num_pages: usize, num_frames: usize) -> (r: Self)
        requires
            num_pages * crate::config::PAGE_SIZE <= usize::MAX,
            num_frames * crate::config::PAGE_SIZE <= usize::MAX,
        ensures
            r.wf(),
            r.status == TaskStatus::Running,
            r.exit_code.is_none(),
            r.start_time == start_time,
            forall|i: int| 0 <= i < MAX_SYSCALL_NUM ==> r.syscall_times@[i] == 0,
            r.memory_set.num_pages() == num_pages,
            r.memory_set.num_frames() == num_frames,
            r.memory_set.free_frames() == num_frames,
            forall|v: nat| #![trigger r.memory_set.entry(v)] r.memory_set.entry(v).is_none(),
    {
        Task {
            status: TaskStatus::Running,
            exit_code: None,
            start_time,
            syscall_times: [0u32; MAX_SYSCALL_NUM],
            memory_set: MemorySet::new(num_pages, num_frames),
        }
    }

    /// Counts one invocation of syscall `id`; ids past the table are not
    /// counted, and a count stops at `u32::MAX`.
    pub fn count_syscall(&mut self, id: usize)
        ensures
            final(self).status == old(self).status,
            final(self).exit_code == old(self).exit_code,
            final(self).start_time == old(self).start_time,
            final(self).memory_set == old(self).memory_set,
            final(self).syscall_times@ == if id < MAX_SYSCALL_NUM && old(self).syscall_times@[id as int] < u32::MAX {
                old(self).syscall_times@.update(id as int, (old(self).syscall_times@[id as int] + 1) as u32)
            } else {
                old(self).syscall_times@
            },
    {
        if id < MAX_SYSCALL_NUM && self.syscall_times[id] < u32::MAX {
            self.syscall_times[id] = self.syscall_times[id] + 1;
        }
    }
}

} // verus!
