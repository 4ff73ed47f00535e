use vstd::prelude::*;
use crate::config::PAGE_SIZE;
use crate::mm::decoded;
use crate::process::{
    mmap_spec, munmap_spec, store_spec, task_info_of, time_val_of, TASK_INFO_SIZE, TIME_VAL_SIZE,
};
use crate::task::Task;

verus! {

/// A pointer whose page is unmapped is refused by both record-writing calls:
/// whatever the clock reads, `sys_get_time` and `sys_task_info` return -1 and
/// leave the task, its memory included, exactly as it was.
pub proof fn unmapped_pointer_refused(pre: Task, post: Task, va: usize, now_us: usize, r: isize)
    requires
        pre.wf(),
        pre.memory_set.translate_spec(va as nat).is_none(),
        store_spec(pre, post, va, time_val_of(now_us).bytes_spec(), r) || store_spec(
            pre,
            post,
            va,
            task_info_of(pre, now_us).bytes_spec(),
            r,
        ),
    ensures
        r == -1,
        post == pre,
{
    crate::encoding::lemma_le_len(time_val_of(now_us).sec as nat, 8);
    crate::encoding::lemma_le_len(time_val_of(now_us).usec as nat, 8);
    crate::encoding::lemma_le_len(task_info_of(pre, now_us).status.code_spec(), 4);
    crate::encoding::lemma_le_len(task_info_of(pre, now_us).time as nat, 8);
    crate::encoding::lemma_u32s_le_len(pre.syscall_times@);
    assert(time_val_of(now_us).bytes_spec().len() == TIME_VAL_SIZE);
    assert(task_info_of(pre, now_us).bytes_spec().len() == TASK_INFO_SIZE);
    assert(!pre.memory_set.range_mapped(va as nat, TIME_VAL_SIZE as nat));
    assert(!pre.memory_set.range_mapped(va as nat, TASK_INFO_SIZE as nat));
}

/// Decomposing a microsecond counter loses nothing: seconds times a million
/// plus the microseconds give the counter back, and the microseconds stay
/// under a million.
pub proof fn time_round_trip(us: usize)
    ensures
        time_val_of(us).sec * 1_000_000 + time_val_of(us).usec == us,
        time_val_of(us).usec < 1_000_000,
{
}

/// Unmapping exactly the region that a successful `sys_mmap` mapped succeeds,
/// and afterwards no address of the region translates.
pub proof fn map_then_unmap(t0: Task, t1: Task, t2: Task, start: usize, len: usize, port: usize, r: isize)
    requires
        t0.wf(),
        mmap_spec(t0, t1, start, len, port, 0),
        munmap_spec(t1, t2, start, len, r),
    ensures
        r == 0,
        forall|a: nat| start <= a < start + len ==> (#[trigger] t2.memory_set.translate_spec(a)).is_none(),
{
    let perm = decoded(port as nat).unwrap();
    assert(t1.memory_set.can_unmap(start as nat, len as nat)) by {
        if len > 0 {
            assert forall|v: nat| #![trigger t1.memory_set.entry(v)]
                crate::mm::in_region(start as nat, len as nat, v) implies t1.memory_set.entry(v).is_some() by {
                assert(t1.memory_set.entry(v) matches Some(e) && e.perm == perm);
            }
        }
    }
    assert forall|a: nat| start <= a < start + len implies (#[trigger] t2.memory_set.translate_spec(a)).is_none() by {
        let v = crate::mm::vpn_of(a);
        assert(v <= crate::mm::vpn_of((start + len - 1) as nat));
        assert(crate::mm::in_region(start as nat, len as nat, v));
        assert(t2.memory_set.entry(v).is_none());
    }
}

/// `sys_mmap` refuses a start address that is not page-aligned, whatever the
/// length and the rights asked for.
pub proof fn mmap_unaligned_refused(pre: Task, post: Task, start: usize, len: usize, port: usize, r: isize)
    requires
        start % PAGE_SIZE != 0,
        mmap_spec(pre, post, start, len, port, r),
    ensures
        r == -1,
        post == pre,
{
}

/// `sys_mmap` refuses `port` 0 and every `port` from 8 up; each of 1 to 7
/// decodes to a permission, so for an aligned region that the space can take
/// the call succeeds.
pub proof fn mmap_port_range(pre: Task, post: Task, start: usize, len: usize, port: usize, r: isize)
    requires
        mmap_spec(pre, post, start, len, port, r),
    ensures
        port == 0 || port >= 8 ==> r == -1,
        0 < port < 8 ==> decoded(port as nat).is_some(),
        0 < port < 8 && start % PAGE_SIZE == 0 && pre.memory_set.can_map(start as nat, len as nat) ==> r == 0,
{
}

} // verus!
