use record_marshal::config::{MAX_SYSCALL_NUM, TASK_INFO_SIZE};
use record_marshal::marshal::{Destination, TranslationRequest};
use record_marshal::process::{
    get_time_request, sys_exit, sys_get_time, sys_mmap, sys_munmap, sys_set_priority,
    sys_task_info, sys_yield, task_info_request, SchedulerRequest,
};
use record_marshal::record::{TaskInfo, TaskStatus, TimeVal};
use record_marshal::task::TaskInfoTracker;

#[test]
fn get_time_writes_the_timestamp() {
    let mut dest = Destination { chunks: vec![vec![0xCC; 16]] };
    assert_eq!(sys_get_time(Some(&mut dest), 0, 5_250_000), 0);
    assert_eq!(dest.chunks[0], vec![5, 0, 0, 0, 0, 0, 0, 0, 0x90, 0xD0, 0x03, 0, 0, 0, 0, 0]);
}

#[test]
fn get_time_across_two_chunks() {
    let mut dest = Destination { chunks: vec![vec![0xCC; 10], vec![0xCC; 6]] };
    assert_eq!(sys_get_time(Some(&mut dest), 0, 5_250_000), 0);
    assert_eq!(dest.chunks[0], vec![5, 0, 0, 0, 0, 0, 0, 0, 0x90, 0xD0]);
    assert_eq!(dest.chunks[1], vec![0x03, 0, 0, 0, 0, 0]);
    assert_eq!(TimeVal::from_bytes(&dest.read_back()), Some(TimeVal { sec: 5, usec: 250_000 }));
}

#[test]
fn get_time_ignores_the_reserved_argument() {
    let mut a = Destination { chunks: vec![vec![0; 16]] };
    let mut b = Destination { chunks: vec![vec![0; 16]] };
    assert_eq!(sys_get_time(Some(&mut a), 0, 42_000_007), 0);
    assert_eq!(sys_get_time(Some(&mut b), 12345, 42_000_007), 0);
    assert_eq!(a.chunks, b.chunks);
}

#[test]
fn get_time_without_destination_fails() {
    assert_eq!(sys_get_time(None, 0, 1), -1);
}

#[test]
fn task_info_writes_the_snapshot() {
    let mut task = TaskInfoTracker::new();
    task.set_status(TaskStatus::Running);
    assert_eq!(task.record_syscall(410), Ok(()));
    assert_eq!(task.record_syscall(410), Ok(()));
    let mut dest = Destination { chunks: vec![vec![0xDD; 1000], vec![0xDD; 1016], vec![0xDD; 8]] };
    assert_eq!(sys_task_info(Some(&mut dest), &task, 777), 0);
    let back: Vec<u8> = dest.read_back();
    assert_eq!(back.len(), TASK_INFO_SIZE + 8);
    let info = TaskInfo::from_bytes(&back[..TASK_INFO_SIZE]);
    assert_eq!(info, Some(task.snapshot(777)));
    let mut expected: [u32; MAX_SYSCALL_NUM] = [0; MAX_SYSCALL_NUM];
    expected[410] = 2;
    assert_eq!(info, Some(TaskInfo { status: TaskStatus::Running, syscall_times: expected, time: 777 }));
    assert_eq!(dest.chunks[2], vec![0xDD; 8]);
}

#[test]
fn task_info_without_destination_fails() {
    let task = TaskInfoTracker::new();
    assert_eq!(sys_task_info(None, &task, 0), -1);
}

#[test]
fn unsupported_syscall() {
    assert_eq!(sys_set_priority(0), -1);
    assert_eq!(sys_set_priority(16), -1);
    assert_eq!(sys_set_priority(-5), -1);
    assert_eq!(sys_set_priority(isize::MAX), -1);
    assert_eq!(sys_set_priority(isize::MIN), -1);
}

#[test]
fn mapping_syscalls_are_unsupported() {
    assert_eq!(sys_mmap(0x1000_0000, 4096, 3), -1);
    assert_eq!(sys_mmap(0, 0, 0), -1);
    assert_eq!(sys_munmap(0x1000_0000, 4096), -1);
    assert_eq!(sys_munmap(0, 0), -1);
}

#[test]
fn exit_asks_the_scheduler_to_end_the_task() {
    assert_eq!(sys_exit(0), SchedulerRequest::Exit(0));
    assert_eq!(sys_exit(-3), SchedulerRequest::Exit(-3));
}

#[test]
fn yield_asks_the_scheduler_to_suspend() {
    assert_eq!(sys_yield(), (SchedulerRequest::Suspend, 0));
}

#[test]
fn handlers_ask_for_the_whole_record() {
    assert_eq!(get_time_request(0x1000, 0), TranslationRequest { ptr: 0x1000, len: 16 });
    assert_eq!(get_time_request(0x1000, 99), TranslationRequest { ptr: 0x1000, len: 16 });
    assert_eq!(task_info_request(0x2ff8), TranslationRequest { ptr: 0x2ff8, len: 2016 });
}
