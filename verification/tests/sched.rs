use pie_vm::sched::Scheduler;

#[test]
fn pids_count_up_from_one() {
    let mut s = Scheduler::new();
    assert_eq!(s.next_pid, 0);
    assert_eq!(s.max_pid, u32::MAX);
    assert_eq!(s.allocate_pid(), 1);
    assert_eq!(s.allocate_pid(), 2);
    assert_eq!(s.next_pid, 2);
}

#[test]
fn pids_wrap_at_the_maximum() {
    let mut s = Scheduler { next_pid: 3, max_pid: 5 };
    assert_eq!(s.allocate_pid(), 4);
    assert_eq!(s.allocate_pid(), 0);
    assert_eq!(s.allocate_pid(), 1);
    let mut s = Scheduler { next_pid: u32::MAX, max_pid: u32::MAX };
    assert_eq!(s.allocate_pid(), 0);
    let mut s = Scheduler { next_pid: u32::MAX - 1, max_pid: u32::MAX };
    assert_eq!(s.allocate_pid(), 0);
}

#[test]
fn the_default_scheduler_is_all_zero() {
    let s = Scheduler::default();
    assert_eq!(s.next_pid, 0);
    assert_eq!(s.max_pid, 0);
}
