use os4::encoding::le_bytes;
use os4::{
    decode_permission, sys_exit, sys_get_time, sys_mmap, sys_munmap, sys_set_priority,
    sys_task_info, sys_yield, Task, TaskInfo, TaskStatus, TimeVal, MAX_SYSCALL_NUM, PAGE_SIZE,
    TASK_INFO_SIZE, TIME_VAL_SIZE,
};

fn fresh_task() -> Task {
    Task::new(0, 16, 8)
}

fn u64_at(bytes: &[u8], at: usize) -> u64 {
    let mut v: u64 = 0;
    for k in (0..8).rev() {
        v = (v << 8) | bytes[at + k] as u64;
    }
    v
}

fn u32_at(bytes: &[u8], at: usize) -> u32 {
    let mut v: u32 = 0;
    for k in (0..4).rev() {
        v = (v << 8) | bytes[at + k] as u32;
    }
    v
}

#[test]
fn set_priority_always_unsupported() {
    for p in [0isize, 1, -1, 16, isize::MIN, isize::MAX] {
        assert_eq!(sys_set_priority(p), -1);
    }
}

#[test]
fn mmap_unaligned_start_refused() {
    let mut t = fresh_task();
    for port in 0..10usize {
        for len in [0usize, 1, PAGE_SIZE, 3 * PAGE_SIZE] {
            assert_eq!(sys_mmap(&mut t, PAGE_SIZE + 1, len, port), -1);
        }
    }
    assert_eq!(t.memory_set.translate(PAGE_SIZE + 1), None);
}

#[test]
fn mmap_port_zero_and_eight_refused() {
    let mut t = fresh_task();
    assert_eq!(sys_mmap(&mut t, 0x1000, 0x1000, 0), -1);
    assert_eq!(sys_mmap(&mut t, 0x1000, 0x1000, 8), -1);
    assert_eq!(sys_mmap(&mut t, 0x1000, 0x1000, 9), -1);
    assert_eq!(t.memory_set.translate(0x1000), None);
}

#[test]
fn mmap_ports_one_to_seven_accepted() {
    let mut t = Task::new(0, 16, 16);
    for port in 1..8usize {
        let start = port * PAGE_SIZE;
        assert_eq!(sys_mmap(&mut t, start, PAGE_SIZE, port), 0);
        assert!(t.memory_set.translate(start).is_some());
    }
}

#[test]
fn decode_permission_table() {
    assert!(decode_permission(0).is_none());
    assert!(decode_permission(8).is_none());
    assert!(decode_permission(usize::MAX).is_none());
    for port in 1..8usize {
        let p = decode_permission(port).unwrap();
        assert_eq!(p.readable, port & 1 != 0);
        assert_eq!(p.writable, port & 2 != 0);
        assert_eq!(p.executable, port & 4 != 0);
        assert!(p.user);
        assert_eq!(p.bits() as usize, (port << 1) + 16);
    }
    let rw = decode_permission(3).unwrap();
    assert_eq!(rw.bits(), 0b10110);
}

#[test]
fn mmap_then_access_through_pointer() {
    let mut t = Task::new(1_000, 16, 8);
    assert_eq!(sys_mmap(&mut t, 0x1000, 0x1000, 3), 0);

    assert_eq!(sys_get_time(&mut t, 3_500_042, 0x1000, 0), 0);
    let got = t.memory_set.read_bytes(0x1000, TIME_VAL_SIZE).unwrap();
    assert_eq!(got.len(), 16);
    assert_eq!(u64_at(&got, 0), 3);
    assert_eq!(u64_at(&got, 8), 500_042);
    assert_eq!(got, TimeVal { sec: 3, usec: 500_042 }.to_bytes());

    t.count_syscall(169);
    t.count_syscall(169);
    t.count_syscall(64);
    assert_eq!(sys_task_info(&mut t, 2_501_000, 0x1800), 0);
    let info = t.memory_set.read_bytes(0x1800, TASK_INFO_SIZE).unwrap();
    assert_eq!(info.len(), 2016);
    assert_eq!(u32_at(&info, 0), 2);
    assert_eq!(u32_at(&info, 4 + 4 * 169), 2);
    assert_eq!(u32_at(&info, 4 + 4 * 64), 1);
    assert_eq!(u32_at(&info, 4 + 4 * 93), 0);
    assert_eq!(u32_at(&info, 2004), 0);
    assert_eq!(u64_at(&info, 2008), 2_500);
}

#[test]
fn munmap_never_mapped_refused() {
    let mut t = fresh_task();
    assert_eq!(sys_munmap(&mut t, 0x1000, 0x1000), -1);
}

#[test]
fn mmap_then_munmap_same_region() {
    let mut t = fresh_task();
    assert_eq!(sys_mmap(&mut t, 0x2000, 3 * PAGE_SIZE, 7), 0);
    for a in [0x2000usize, 0x2fff, 0x3000, 0x4fff] {
        assert!(t.memory_set.translate(a).is_some());
    }
    assert_eq!(sys_munmap(&mut t, 0x2000, 3 * PAGE_SIZE), 0);
    for a in [0x2000usize, 0x2001, 0x2fff, 0x3000, 0x4000, 0x4fff] {
        assert_eq!(t.memory_set.translate(a), None);
    }
    assert_eq!(sys_mmap(&mut t, 0x2000, 3 * PAGE_SIZE, 1), 0);
}

#[test]
fn unmapped_pointer_writes_nothing() {
    let mut t = fresh_task();
    assert_eq!(sys_mmap(&mut t, 0x1000, 0x1000, 3), 0);
    let sentinel: Vec<u8> = (0..PAGE_SIZE).map(|i| (i % 251) as u8 + 1).collect();
    assert!(t.memory_set.copy_out(0x1000, &sentinel));
    for ptr in [0usize, 0x2000, 0x2008, 0xf000, usize::MAX - 3] {
        assert_eq!(t.memory_set.translate(ptr), None);
        assert_eq!(sys_get_time(&mut t, 123_456_789, ptr, 0), -1);
        assert_eq!(sys_task_info(&mut t, 123_456_789, ptr), -1);
    }
    assert_eq!(t.memory_set.read_bytes(0x1000, PAGE_SIZE).unwrap(), sentinel);
}

#[test]
fn record_straddling_unmapped_page_refused() {
    let mut t = fresh_task();
    assert_eq!(sys_mmap(&mut t, 0x1000, 0x1000, 3), 0);
    assert_eq!(sys_get_time(&mut t, 5, 0x1ff8, 0), -1);
    assert_eq!(sys_get_time(&mut t, 5, 0x1ff0, 0), 0);
    assert_eq!(sys_task_info(&mut t, 5, 0x1900), -1);
}

#[test]
fn time_decomposition() {
    let tv = TimeVal::from_us(1_234_567);
    assert_eq!(tv, TimeVal { sec: 1, usec: 234_567 });
    for us in [0usize, 999_999, 1_000_000, 1_000_001, usize::MAX] {
        let tv = TimeVal::from_us(us);
        assert!(tv.usec < 1_000_000);
        assert_eq!(tv.sec * 1_000_000 + tv.usec, us);
    }
}

#[test]
fn zero_length_requests() {
    let mut t = fresh_task();
    assert_eq!(sys_mmap(&mut t, 0x1000, 0, 3), 0);
    assert_eq!(t.memory_set.translate(0x1000), None);
    assert_eq!(sys_munmap(&mut t, 0x1000, 0), 0);
    assert_eq!(sys_munmap(&mut t, 0x1001, 0), -1);
}

#[test]
fn mmap_overlap_refused() {
    let mut t = fresh_task();
    assert_eq!(sys_mmap(&mut t, 0x1000, 0x2000, 3), 0);
    assert_eq!(sys_mmap(&mut t, 0x2000, 0x1000, 3), -1);
    assert_eq!(sys_mmap(&mut t, 0x0000, 0x1001, 3), -1);
    assert_eq!(sys_mmap(&mut t, 0x3000, 0x1000, 3), 0);
}

#[test]
fn mmap_out_of_frames_or_space_refused() {
    let mut t = Task::new(0, 16, 2);
    assert_eq!(sys_mmap(&mut t, 0x1000, 3 * PAGE_SIZE, 3), -1);
    assert_eq!(t.memory_set.translate(0x1000), None);
    assert_eq!(sys_mmap(&mut t, 0x1000, 2 * PAGE_SIZE, 3), 0);
    assert_eq!(sys_mmap(&mut t, 0x5000, 1, 3), -1);
    assert_eq!(sys_mmap(&mut t, 16 * PAGE_SIZE, PAGE_SIZE, 3), -1);
    assert_eq!(sys_mmap(&mut t, PAGE_SIZE, usize::MAX, 3), -1);
}

#[test]
fn munmap_partial_region_refused() {
    let mut t = fresh_task();
    assert_eq!(sys_mmap(&mut t, 0x1000, 0x1000, 3), 0);
    assert_eq!(sys_munmap(&mut t, 0x1000, 0x2000), -1);
    assert!(t.memory_set.translate(0x1000).is_some());
    assert_eq!(sys_munmap(&mut t, 0x1000, 1), 0);
    assert_eq!(t.memory_set.translate(0x1000), None);
}

#[test]
fn mapped_pages_are_zeroed() {
    let mut t = Task::new(0, 4, 1);
    assert_eq!(sys_mmap(&mut t, 0, PAGE_SIZE, 3), 0);
    assert!(t.memory_set.copy_out(0, &vec![0xAA; PAGE_SIZE]));
    assert_eq!(sys_munmap(&mut t, 0, PAGE_SIZE), 0);
    assert_eq!(sys_mmap(&mut t, 2 * PAGE_SIZE, PAGE_SIZE, 3), 0);
    assert_eq!(t.memory_set.read_bytes(2 * PAGE_SIZE, PAGE_SIZE).unwrap(), vec![0u8; PAGE_SIZE]);
}

#[test]
fn exit_and_yield() {
    let mut t = fresh_task();
    assert_eq!(sys_yield(&mut t), 0);
    assert_eq!(t.status, TaskStatus::Ready);
    sys_exit(&mut t, -3);
    assert_eq!(t.status, TaskStatus::Exited);
    assert_eq!(t.exit_code, Some(-3));
}

#[test]
fn task_info_record_bytes() {
    let mut times = [0u32; MAX_SYSCALL_NUM];
    times[0] = 0x0102_0304;
    let info = TaskInfo { status: TaskStatus::Running, syscall_times: times, time: 7 };
    let b = info.to_bytes();
    assert_eq!(b.len(), TASK_INFO_SIZE);
    assert_eq!(&b[0..8], &[2, 0, 0, 0, 4, 3, 2, 1]);
    assert_eq!(b[2008], 7);
    assert_eq!(TaskStatus::Exited.code(), 3);
    assert_eq!(TaskStatus::UnInit.code(), 0);
}

#[test]
fn little_endian_bytes() {
    let mut out = vec![9u8];
    le_bytes(&mut out, 0x0102, 4);
    assert_eq!(out, vec![9, 2, 1, 0, 0]);
}

#[test]
fn syscall_counts_saturate_and_ignore_unknown_ids() {
    let mut t = fresh_task();
    t.syscall_times[3] = u32::MAX;
    t.count_syscall(3);
    t.count_syscall(MAX_SYSCALL_NUM);
    assert_eq!(t.syscall_times[3], u32::MAX);
}
