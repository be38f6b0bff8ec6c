use os4_syscall::config::{PAGE_SIZE, PORT_READ, PORT_WRITE, SYSCALL_GET_TIME, SYSCALL_TASK_INFO};
use os4_syscall::error::SysError;
use os4_syscall::process::{
    sys_exit, sys_get_time, sys_mmap, sys_munmap, sys_set_priority, sys_task_info, sys_yield,
    Kernel, SchedulerRequest,
};
use os4_syscall::task::TaskStatus;
use os4_syscall::time::TimeVal;

const TOKEN: usize = 42;
const BASE: usize = 0x2000_0000;

fn running_kernel() -> Kernel {
    let mut k = Kernel::new(TOKEN, TimeVal::from_micros(250_000));
    assert_eq!(sys_mmap(&mut k, BASE, PAGE_SIZE, PORT_READ | PORT_WRITE), 0);
    k
}

#[test]
fn get_time_writes_timeval() {
    let k = running_kernel();
    // clock reads 1_500_000 microseconds at the get_time syscall
    let (ret, write) = sys_get_time(&k, BASE, 0, 1_500_000);
    assert_eq!(ret, 0);
    let w = write.expect("a valid pointer gets the record");
    assert_eq!(w.value, TimeVal { sec: 1, usec: 500_000 });
    assert_eq!(w.kaddr % PAGE_SIZE, BASE % PAGE_SIZE);
}

#[test]
fn get_time_accepts_any_timezone_value() {
    let k = running_kernel();
    let (r0, w0) = sys_get_time(&k, BASE, 0, 1_500_000);
    let (r1, w1) = sys_get_time(&k, BASE, usize::MAX, 1_500_000);
    assert_eq!((r0, w0), (0, w1));
    assert_eq!(r1, 0);
}

#[test]
fn get_time_bad_pointer_faults_without_write() {
    let k = running_kernel();
    let (ret, write) = sys_get_time(&k, BASE + PAGE_SIZE, 0, 1_500_000);
    assert_eq!(ret, -1);
    assert!(write.is_none());
    // a pointer whose record would cross the page boundary is refused too
    let (ret, write) = sys_get_time(&k, BASE + PAGE_SIZE - 8, 0, 1_500_000);
    assert_eq!(ret, -1);
    assert!(write.is_none());
}

#[test]
fn set_priority_returns_minus_one_for_every_input() {
    for p in [isize::MIN, -5, -1, 0, 1, 16, isize::MAX] {
        assert_eq!(sys_set_priority(p), -1);
    }
}

#[test]
fn yield_returns_zero_and_keeps_task_alive() {
    let mut k = running_kernel();
    for _ in 0..3 {
        let (ret, req) = sys_yield(&mut k);
        assert_eq!(ret, 0);
        assert_eq!(req, SchedulerRequest::SuspendAndRunNext);
        assert_eq!(k.task.status, TaskStatus::Running);
    }
}

#[test]
fn exit_retires_task_with_code() {
    let mut k = running_kernel();
    let req = sys_exit(&mut k, 42);
    assert_eq!(req, SchedulerRequest::ExitAndRunNext(42));
    assert_eq!(k.task.status, TaskStatus::Exited);
}

#[test]
fn mmap_failure_leaves_address_space_unchanged() {
    let mut k = running_kernel();
    assert_eq!(sys_mmap(&mut k, BASE, 2 * PAGE_SIZE, PORT_READ), -1);
    let (ret, _) = sys_get_time(&k, BASE, 0, 5);
    assert_eq!(ret, 0);
    let (ret, _) = sys_get_time(&k, BASE + PAGE_SIZE, 0, 5);
    assert_eq!(ret, -1);
}

#[test]
fn munmap_round_trip_through_handlers() {
    let mut k = running_kernel();
    assert_eq!(sys_munmap(&mut k, BASE, PAGE_SIZE), 0);
    let (ret, write) = sys_get_time(&k, BASE, 0, 7);
    assert_eq!((ret, write), (-1, None));
    assert_eq!(sys_munmap(&mut k, BASE, PAGE_SIZE), -1);
}

#[test]
fn task_info_reports_counts_and_monotonic_time() {
    let mut k = running_kernel();
    k.task.record_syscall(SYSCALL_GET_TIME).unwrap();
    k.task.record_syscall(SYSCALL_TASK_INFO).unwrap();

    // first scheduled at 250_000us; clock reads 1_250_000us, then 2_000_000us
    let (r1, w1) = sys_task_info(&k, BASE, 1_250_000);
    assert_eq!(r1, 0);
    let w1 = w1.unwrap();
    assert_eq!(w1.value.time, 1000);
    assert_eq!(w1.value.status, TaskStatus::Running);
    assert_eq!(w1.value.syscall_times[SYSCALL_GET_TIME], 1);
    assert_eq!(w1.value.syscall_times[SYSCALL_TASK_INFO], 1);

    // no intervening syscall recorded: counts identical, time non-decreasing
    let (r2, w2) = sys_task_info(&k, BASE, 2_000_000);
    assert_eq!(r2, 0);
    let w2 = w2.unwrap();
    assert!(w2.value.time >= w1.value.time);
    assert_eq!(w2.value.syscall_times, w1.value.syscall_times);

    // one intervening syscall: exactly its own counter goes up, by one
    k.task.record_syscall(SYSCALL_TASK_INFO).unwrap();
    let (r3, w3) = sys_task_info(&k, BASE, 2_000_000);
    assert_eq!(r3, 0);
    let w3 = w3.unwrap();
    assert_eq!(w3.value.syscall_times[SYSCALL_TASK_INFO], 2);
    assert_eq!(w3.value.syscall_times[SYSCALL_GET_TIME], 1);
    for (i, c) in w3.value.syscall_times.iter().enumerate() {
        if i != SYSCALL_TASK_INFO {
            assert_eq!(*c, w2.value.syscall_times[i]);
        }
    }
}

#[test]
fn task_info_bad_pointer_faults_without_write() {
    let k = running_kernel();
    let (ret, write) = sys_task_info(&k, BASE + PAGE_SIZE, 1_000_000);
    assert_eq!(ret, -1);
    assert!(write.is_none());
}

#[test]
fn record_syscall_checks_the_table_bound() {
    let mut k = running_kernel();
    assert_eq!(
        k.task.record_syscall(os4_syscall::config::MAX_SYSCALL_NUM),
        Err(SysError::InvalidArgument)
    );
}

#[test]
fn every_error_surfaces_as_minus_one() {
    for e in [
        SysError::AddressFault,
        SysError::InvalidArgument,
        SysError::Unimplemented,
        SysError::ResourceConflict,
    ] {
        assert_eq!(e.code(), -1);
    }
}
