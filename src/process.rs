use vstd::prelude::*;
use crate::config::{MAX_SYSCALL_NUM, PAGE_SIZE};
use crate::encoding::{le, le_bytes, lemma_le_len, lemma_u32s_le_len, u32s_le, u32s_le_bytes};
use crate::mm::{decode_permission, decoded};
use crate::task::{Task, TaskStatus};

verus! {

/// Bytes that a `TimeVal` takes in user memory.
pub const TIME_VAL_SIZE: usize = 16;

/// Bytes that a `TaskInfo` takes in user memory.
pub const TASK_INFO_SIZE: usize = 2016;

/// A wall-clock sample: whole seconds and the microseconds past them.
#[derive(Clone, Copy, Debug, PartialEq, Eq, Structural)]
pub struct TimeVal {
    pub sec: usize,
    pub usec: usize,
}

/// The sample that a microsecond counter value `us` decomposes into.
pub open spec fn time_val_of(us: usize) -> TimeVal {
    TimeVal { sec: us / 1_000_000, usec: us % 1_000_000 }
}

impl TimeVal {
    /// Layout in user memory: `sec` then `usec`, each eight little-endian bytes.
    pub open spec fn bytes_spec(self) -> Seq<u8> {
        le(self.sec as nat, 8) + le(self.usec as nat, 8)
    }

    /// Decomposes microsecond counter value `us`.
    pub fn from_us(us: usize) -> (r: Self)
        ensures
            r == time_val_of(us),
    {
        TimeVal { sec: us / 1_000_000, usec: us % 1_000_000 }
    }

    pub fn to_bytes(&self) -> (r: Vec<u8>)
        ensures
            r@ == self.bytes_spec(),
            r@.len() == TIME_VAL_SIZE,
    {
        let mut out: Vec<u8> = Vec::new();
        le_bytes(&mut out, self.sec, 8);
        le_bytes(&mut out, self.usec, 8);
        proof {
            lemma_le_len(self.sec as nat, 8);
            lemma_le_len(self.usec as nat, 8);
            assert(out@ =~= self.bytes_spec());
        }
        out
    }
}

/// A snapshot of the calling task's telemetry.
#[derive(Clone, Copy)]
pub struct TaskInfo {
    pub status: TaskStatus,
    pub syscall_times: [u32; MAX_SYSCALL_NUM],
    /// Milliseconds since the task first ran.
    pub time: usize,
}

/// The snapshot of `task` at microsecond counter value `now_us`.
pub open spec fn task_info_of(task: Task, now_us: usize) -> TaskInfo {
    TaskInfo {
        status: TaskStatus::Running,
        syscall_times: task.syscall_times,
        time: ((now_us - task.start_time) / 1000) as usize,
    }
}

impl TaskInfo {
    /// Layout in user memory: the status code as four little-endian bytes, each
    /// count as four little-endian bytes, four zero bytes of padding, then
    /// `time` as eight little-endian bytes.
    pub open spec fn bytes_spec(self) -> Seq<u8> {
        le(self.status.code_spec(), 4) + u32s_le(self.syscall_times@) + seq![0u8, 0u8, 0u8, 0u8] + le(
            self.time as nat,
            8,
        )
    }

    pub fn to_bytes(&self) -> (r: Vec<u8>)
        ensures
            r@ == self.bytes_spec(),
            r@.len() == TASK_INFO_SIZE,
    {
        let mut out: Vec<u8> = Vec::new();
        le_bytes(&mut out, self.status.code() as usize, 4);
        u32s_le_bytes(&mut out, &self.syscall_times);
        out.push(0);
        out.push(0);
        out.push(0);
        out.push(0);
        le_bytes(&mut out, self.time, 8);
        proof {
            lemma_le_len(self.status.code_spec(), 4);
            lemma_u32s_le_len(self.syscall_times@);
            lemma_le_len(self.time as nat, 8);
            assert(out@ =~= self.bytes_spec());
        }
        out
    }
}

/// `post` differs from `pre` at most in its address space.
pub open spec fn same_but_memory(pre: Task, post: Task) -> bool {
    &&& post.status == pre.status
    &&& post.exit_code == pre.exit_code
    &&& post.start_time == pre.start_time
    &&& post.syscall_times == pre.syscall_times
}

/// Effect of storing the record `bytes` at user address `va`: -1 with nothing
/// changed when some byte of its place is unmapped, else 0 with the bytes in place.
pub open spec fn store_spec(pre: Task, post: Task, va: usize, bytes: Seq<u8>, r: isize) -> bool {
    &&& post.wf()
    &&& r == 0 || r == -1
    &&& r == 0 <==> pre.memory_set.range_mapped(va as nat, bytes.len())
    &&& r == -1 ==> post == pre
    &&& r == 0 ==> same_but_memory(pre, post) && pre.memory_set.written(post.memory_set, va as nat, bytes)
}

/// Effect of `sys_mmap(start, len, port)` on `pre`, giving `post` and `r`.
pub open spec fn mmap_spec(pre: Task, post: Task, start: usize, len: usize, port: usize, r: isize) -> bool {
    &&& post.wf()
    &&& r == 0 || r == -1
    &&& r == 0 <==> (start % PAGE_SIZE == 0 && 0 < port < 8 && pre.memory_set.can_map(start as nat, len as nat))
    &&& r == -1 ==> post == pre
    &&& r == 0 ==> same_but_memory(pre, post) && pre.memory_set.mapped_into(
        post.memory_set,
        start as nat,
        len as nat,
        decoded(port as nat).unwrap(),
    )
}

/// Effect of `sys_munmap(start, len)` on `pre`, giving `post` and `r`.
pub open spec fn munmap_spec(pre: Task, post: Task, start: usize, len: usize, r: isize) -> bool {
    &&& post.wf()
    &&& r == 0 || r == -1
    &&& r == 0 <==> (start % PAGE_SIZE == 0 && pre.memory_set.can_unmap(start as nat, len as nat))
    &&& r == -1 ==> post == pre
    &&& r == 0 ==> same_but_memory(pre, post) && pre.memory_set.unmapped_from(post.memory_set, start as nat, len as nat)
}

/// Ends the calling task with `exit_code`; the scheduler then runs another
/// task and never resumes this one.
pub fn sys_exit(task: &mut Task, exit_code: i32)
    ensures
        final(task).status == TaskStatus::Exited,
        final(task).exit_code == Some(exit_code),
        final(task).start_time == old(task).start_time,
        final(task).syscall_times == old(task).syscall_times,
        final(task).memory_set == old(task).memory_set,
{
    task.status = TaskStatus::Exited;
    task.exit_code = Some(exit_code);
}

/// Gives up the processor: the calling task becomes ready, and 0 is what it
/// sees once the scheduler picks it again.
pub fn sys_yield(task: &mut Task) -> (r: isize)
    ensures
        r == 0,
        final(task).status == TaskStatus::Ready,
        final(task).exit_code == old(task).exit_code,
        final(task).start_time == old(task).start_time,
        final(task).syscall_times == old(task).syscall_times,
        final(task).memory_set == old(task).memory_set,
{
    task.status = TaskStatus::Ready;
    0
}

/// Stores the record `bytes` at user address `va` of the task's space.
fn store(task: &mut Task, va: usize, bytes: &Vec<u8>) -> (r: isize)
    requires
        old(task).wf(),
    ensures
        store_spec(*old(task), *final(task), va, bytes@, r),
{
    if task.memory_set.copy_out(va, bytes) {
        0
    } else {
        -1
    }
}

/// Writes the time at microsecond counter value `now_us` to the `TimeVal` at
/// user address `ts`. Returns 0, or -1 without writing anything when the
/// record's place is not wholly mapped.
pub fn sys_get_time(task: &mut Task, now_us: usize, ts: usize, _tz: usize) -> (r: isize)
    requires
        old(task).wf(),
    ensures
        store_spec(*old(task), *final(task), ts, time_val_of(now_us).bytes_spec(), r),
        time_val_of(now_us).bytes_spec().len() == TIME_VAL_SIZE,
        r == 0 <==> old(task).memory_set.range_mapped(ts as nat, TIME_VAL_SIZE as nat),
{
    let tv = TimeVal::from_us(now_us);
    let bytes = tv.to_bytes();
    store(task, ts, &bytes)
}

/// Priority scheduling is not available: always -1.
pub fn sys_set_priority(_prio: isize) -> (r: isize)
    ensures
        r == -1,
{
    -1
}

/// Maps `[start, start + len)` to fresh zero-filled pages with the rights that
/// `port` encodes (bit 0 readable, bit 1 writable, bit 2 executable). Returns
/// -1, with nothing changed, when `start` is not page-aligned, `port` is 0 or
/// has a bit above the three, or the space refuses the region.
pub fn sys_mmap(task: &mut Task, start: usize, len: usize, port: usize) -> (r: isize)
    requires
        old(task).wf(),
    ensures
        mmap_spec(*old(task), *final(task), start, len, port, r),
{
    if start % PAGE_SIZE != 0 {
        return -1;
    }
    let perm = match decode_permission(port) {
        Some(p) => p,
        None => {
            return -1;
        },
    };
    task.memory_set.m_map(start, len, perm)
}

/// Removes the mapping of every page of `[start, start + len)`. Returns -1,
/// with nothing changed, when `start` is not page-aligned or some page of the
/// region is not mapped.
pub fn sys_munmap(task: &mut Task, start: usize, len: usize) -> (r: isize)
    requires
        old(task).wf(),
    ensures
        munmap_spec(*old(task), *final(task), start, len, r),
{
    if start % PAGE_SIZE != 0 {
        return -1;
    }
    task.memory_set.m_unmap(start, len)
}

/// Writes the task's telemetry at microsecond counter value `now_us` to the
/// `TaskInfo` at user address `ti`. Returns 0, or -1 without writing anything
/// when the record's place is not wholly mapped.
pub fn sys_task_info(task: &mut Task, now_us: usize, ti: usize) -> (r: isize)
    requires
        old(task).wf(),
        old(task).start_time <= now_us,
    ensures
        store_spec(*old(task), *final(task), ti, task_info_of(*old(task), now_us).bytes_spec(), r),
        task_info_of(*old(task), now_us).bytes_spec().len() == TASK_INFO_SIZE,
        r == 0 <==> old(task).memory_set.range_mapped(ti as nat, TASK_INFO_SIZE as nat),
{
    let info = TaskInfo {
        status: TaskStatus::Running,
        syscall_times: task.syscall_times,
        time: (now_us - task.start_time) / 1000,
    };
    let bytes = info.to_bytes();
    store(task, ti, &bytes)
}

} // verus!
