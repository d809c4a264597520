use microkern::tasks::{Scheduler, Task, TaskRunState, Transfer, TrapFrameRef, CPU};

fn entry() -> u64 {
    0x8_0000
}

#[test]
fn create_assigns_sequential_ids() {
    let mut s = Scheduler::new();
    assert_eq!(s.task_num(), 0);
    assert_eq!(s.create(1, None, entry()), 1);
    assert_eq!(s.create(0, Some(1), entry()), 2);
    assert_eq!(s.create(7, Some(1), entry()), 3);
    assert_eq!(s.task_num(), 3);
}

#[test]
fn create_records_fields_and_stacks() {
    let mut s = Scheduler::new();
    assert_eq!(s.create(4, Some(9), 0xABCD), 1);
    let t = s.schedule().expect("one task is ready");
    assert_eq!(t.id, 1);
    assert_eq!(t.priority, 4);
    assert_eq!(t.parent, Some(9));
    assert_eq!(t.run_state, TaskRunState::Ready);
    assert!(t.trap_frame.is_none());
    assert!(t.context.is_none());
    assert_eq!(t.kernel_sp, 0x20000 - 0x400);
    assert_eq!(t.starting_sp, 0x50000 - 0x800);
    assert_eq!(t.fn_ptr, 0xABCD);
}

#[test]
fn fifty_first_create_returns_sentinel_and_leaves_queue() {
    let mut s = Scheduler::new();
    for i in 1..=50u8 {
        assert_eq!(s.create(3, None, entry()), i as i8);
    }
    // one more than the capacity: the sentinel, never a fatal error
    assert_eq!(s.create(3, None, entry()), -2);
    // the fifty waiting descriptors are exactly as they were
    let mut seen = Vec::new();
    while let Some(t) = s.schedule() {
        seen.push(t.id);
    }
    let expected: Vec<u8> = (1..=50).collect();
    assert_eq!(seen, expected);
}

#[test]
fn schedule_empty_returns_none() {
    let mut s = Scheduler::new();
    assert!(s.schedule().is_none());
}

#[test]
fn schedule_pops_highest_priority_first() {
    let mut s = Scheduler::new();
    assert_eq!(s.create(1, None, entry()), 1);
    assert_eq!(s.create(3, None, entry()), 2);
    assert_eq!(s.create(2, None, entry()), 3);
    assert_eq!(s.schedule().unwrap().id, 2);
    assert_eq!(s.schedule().unwrap().id, 3);
    assert_eq!(s.schedule().unwrap().id, 1);
    assert!(s.schedule().is_none());
}

#[test]
fn equal_priorities_activate_in_creation_order() {
    let mut s = Scheduler::new();
    assert_eq!(s.create(5, None, entry()), 1);
    assert_eq!(s.create(5, None, entry()), 2);
    assert_eq!(s.create(5, None, entry()), 3);
    assert_eq!(s.schedule().unwrap().id, 1);
    assert_eq!(s.schedule().unwrap().id, 2);
    assert_eq!(s.schedule().unwrap().id, 3);
}

#[test]
fn requeued_task_goes_behind_equal_priority() {
    let mut s = Scheduler::new();
    assert_eq!(s.create(5, None, entry()), 1);
    assert_eq!(s.create(5, None, entry()), 2);
    let first = s.schedule().unwrap();
    assert_eq!(first.id, 1);
    // the task hands the processor back: it re-queues behind its peer
    assert!(s.push(first).is_ok());
    assert_eq!(s.schedule().unwrap().id, 2);
    assert_eq!(s.schedule().unwrap().id, 1);
}

#[test]
fn activate_cold_start_asks_for_register_switch() {
    let mut cpu = CPU::init();
    assert_eq!(cpu.scheduler.create(2, None, 0x9000), 1);
    let t = cpu.scheduler.schedule().unwrap();
    let transfer = cpu.scheduler.activate(t);
    assert_eq!(
        transfer,
        Transfer::ContextSwitch { entry: 0x9000, user_sp: 0x50000 - 0x800 }
    );
    let active = cpu.scheduler.curr_active().expect("task is active");
    assert_eq!(active.id, 1);
    assert_eq!(active.run_state, TaskRunState::Active);
    assert!(active.context.is_some());
}

#[test]
fn activate_trapped_task_asks_for_trap_return() {
    let mut s = Scheduler::new();
    assert_eq!(s.create(2, None, entry()), 1);
    let mut t = s.schedule().unwrap();
    t.trap_frame = Some(TrapFrameRef { addr: 0x1F000, elr: 0x8844 });
    let transfer = s.activate(t);
    assert_eq!(transfer, Transfer::TrapReturn { elr: 0x8844, frame_addr: 0x1F000 });
}

#[test]
fn activate_exited_task_is_a_no_op() {
    let mut s = Scheduler::new();
    let dead = Task {
        id: 1,
        priority: 9,
        cnt: usize::MAX - 1,
        parent: None,
        run_state: TaskRunState::Exited,
        trap_frame: None,
        context: None,
        kernel_sp: 0x20000 - 0x400,
        starting_sp: 0x50000 - 0x800,
        fn_ptr: entry(),
    };
    assert_eq!(s.activate(dead), Transfer::Skipped);
    assert!(s.curr_active().is_none());
    assert!(s.schedule().is_none());
}

#[test]
fn reschedule_vacates_and_requeues() {
    let mut s = Scheduler::new();
    assert_eq!(s.create(2, None, entry()), 1);
    let t = s.schedule().unwrap();
    s.activate(t);
    assert!(s.curr_active().is_some());
    s.reschedule();
    assert!(s.curr_active().is_none());
    assert_eq!(s.schedule().unwrap().id, 1);
}

#[test]
fn reschedule_with_empty_slot_changes_nothing() {
    let mut s = Scheduler::new();
    assert_eq!(s.create(2, None, entry()), 1);
    s.reschedule();
    assert_eq!(s.schedule().unwrap().id, 1);
    assert!(s.schedule().is_none());
}

#[test]
fn exited_task_never_scheduled_again() {
    let mut s = Scheduler::new();
    assert_eq!(s.create(2, None, entry()), 1);
    assert_eq!(s.create(1, None, entry()), 2);
    let t = s.schedule().unwrap();
    assert_eq!(t.id, 1);
    s.activate(t);
    let dead = s.exit_active();
    assert_eq!(dead.id, 1);
    assert_eq!(dead.run_state, TaskRunState::Exited);
    s.reschedule();
    // only the other task remains, now and ever after
    assert_eq!(s.schedule().unwrap().id, 2);
    assert!(s.schedule().is_none());
    assert!(s.schedule().is_none());
}
