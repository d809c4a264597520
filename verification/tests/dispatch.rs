use microkern::sys_syscall::{get_kernel_sp, syscall, ExceptionFrame};
use microkern::syscall::{
    EXCEPTION_CODE_CREATE, EXCEPTION_CODE_EXIT, EXCEPTION_CODE_MY_PARENT_TID,
    EXCEPTION_CODE_MY_TID, EXCEPTION_CODE_YIELD,
};
use microkern::tasks::{Transfer, CPU};

const USER_ENTRY: u64 = 0x8_0000;

fn frame(code: u64, x0: u64, x1: u64) -> ExceptionFrame {
    ExceptionFrame {
        x0,
        x1,
        x2: 0,
        x3: 0,
        x4: 0,
        x5: 0,
        x6: 0,
        x7: 0,
        x8: 0,
        x9: 0,
        x10: 0,
        x11: 0,
        x12: 0,
        x13: 0,
        x14: 0,
        x15: 0,
        x16: 0,
        x17: 0,
        x18: 0,
        x19: 0,
        x20: 0,
        x21: 0,
        x22: 0,
        x23: 0,
        x24: 0,
        x25: 0,
        x26: 0,
        x27: 0,
        x28: 0,
        x29: 0,
        x30: 0,
        xzr: 0,
        esr: code,
        spsr: 0,
        elr: 0x8_1000,
        elr_dup: 0,
    }
}

/// Boot: create the first task and hand it the processor.
fn boot() -> CPU {
    let mut cpu = CPU::init();
    assert_eq!(cpu.scheduler.create(1, None, USER_ENTRY), 1);
    let t = cpu.scheduler.schedule().unwrap();
    cpu.scheduler.activate(t);
    cpu
}

#[test]
fn my_tid_lands_in_first_register() {
    let mut cpu = boot();
    let mut f = frame(EXCEPTION_CODE_MY_TID, 0, 0);
    syscall(&mut cpu, &mut f, 0x1FC00);
    assert_eq!(f.x0, 1);
}

#[test]
fn my_parent_tid_of_boot_task_is_minus_one() {
    let mut cpu = boot();
    let mut f = frame(EXCEPTION_CODE_MY_PARENT_TID, 0, 0);
    syscall(&mut cpu, &mut f, 0x1FC00);
    assert_eq!(f.x0, (-1i8) as u64);
}

#[test]
fn created_child_reports_creator_as_parent() {
    let mut cpu = boot();
    let mut f = frame(EXCEPTION_CODE_CREATE, 7, USER_ENTRY);
    syscall(&mut cpu, &mut f, 0x1FC00);
    assert_eq!(f.x0, 2);
    cpu.scheduler.reschedule();
    // the child outranks its parent, so it is handed out first
    let child = cpu.scheduler.schedule().unwrap();
    assert_eq!(child.id, 2);
    cpu.scheduler.activate(child);
    let mut f2 = frame(EXCEPTION_CODE_MY_PARENT_TID, 0, 0);
    syscall(&mut cpu, &mut f2, 0x1F800);
    assert_eq!(f2.x0, 1);
}

#[test]
fn yield_returns_zero_and_identity_survives() {
    let mut cpu = boot();
    let mut f = frame(EXCEPTION_CODE_MY_TID, 0, 0);
    syscall(&mut cpu, &mut f, 0x1FC00);
    let tid_before = f.x0;
    cpu.scheduler.reschedule();
    let t = cpu.scheduler.schedule().unwrap();
    let transfer = cpu.scheduler.activate(t);
    assert!(matches!(transfer, Transfer::TrapReturn { .. }));
    let mut fy = frame(EXCEPTION_CODE_YIELD, 0, 0);
    syscall(&mut cpu, &mut fy, 0x1FC00);
    assert_eq!(fy.x0, 0);
    cpu.scheduler.reschedule();
    // the same task comes back: same id before and after the yield
    let t = cpu.scheduler.schedule().unwrap();
    cpu.scheduler.activate(t);
    let mut f2 = frame(EXCEPTION_CODE_MY_TID, 0, 0);
    syscall(&mut cpu, &mut f2, 0x1FC00);
    assert_eq!(f2.x0, tid_before);
}

#[test]
fn exited_caller_never_appears_again() {
    let mut cpu = boot();
    let mut f = frame(EXCEPTION_CODE_CREATE, 0, USER_ENTRY);
    syscall(&mut cpu, &mut f, 0x1FC00);
    assert_eq!(f.x0, 2);
    cpu.scheduler.reschedule();
    let t = cpu.scheduler.schedule().unwrap();
    assert_eq!(t.id, 1);
    cpu.scheduler.activate(t);
    let mut fe = frame(EXCEPTION_CODE_EXIT, 0, 0);
    syscall(&mut cpu, &mut fe, 0x1FC00);
    // the slot was vacated without a re-queue
    assert!(cpu.scheduler.curr_active().is_none());
    cpu.scheduler.reschedule();
    assert_eq!(cpu.scheduler.schedule().unwrap().id, 2);
    assert!(cpu.scheduler.schedule().is_none());
}

#[test]
fn unknown_call_number_gets_error_sentinel() {
    let mut cpu = boot();
    let mut f = frame(99, 0, 0);
    syscall(&mut cpu, &mut f, 0x1FC00);
    assert_eq!(f.x0, (-3i8) as u64);
    // the kernel did not halt: the caller is still active
    assert_eq!(cpu.scheduler.curr_active().unwrap().id, 1);
}

#[test]
fn call_number_is_decoded_from_syndrome_iss_field() {
    let mut cpu = boot();
    // bits above the ISS field do not change the call number
    let mut f = frame(0x5600_0000 | EXCEPTION_CODE_MY_TID, 0, 0);
    syscall(&mut cpu, &mut f, 0x1FC00);
    assert_eq!(f.x0, 1);
}

#[test]
fn kernel_sp_of_active_task() {
    let cpu = boot();
    assert_eq!(get_kernel_sp(&cpu), 0x20000 - 0x400);
}

#[test]
fn create_beyond_capacity_reports_sentinel_to_caller() {
    let mut cpu = boot();
    for i in 0..50u64 {
        let mut f = frame(EXCEPTION_CODE_CREATE, 1, USER_ENTRY);
        syscall(&mut cpu, &mut f, 0x1FC00);
        assert_eq!(f.x0, i + 2);
    }
    let mut f = frame(EXCEPTION_CODE_CREATE, 1, USER_ENTRY);
    syscall(&mut cpu, &mut f, 0x1FC00);
    assert_eq!(f.x0, (-2i8) as u64);
}

/// One scripted user action: which call a task issues when it next runs.
#[derive(Clone, Copy)]
enum Action {
    Create(u64),
    MyTid,
    MyParentTid,
    Yield,
    Exit,
}

/// Run the scheduling loop with scripted tasks, recording each first
/// activation, until nothing is ready.
fn run_scripted(cpu: &mut CPU, scripts: &mut Vec<(u8, Vec<Action>)>) -> Vec<u8> {
    let mut cold_starts = Vec::new();
    loop {
        let t = match cpu.scheduler.schedule() {
            Some(t) => t,
            None => break,
        };
        let id = t.id;
        let transfer = cpu.scheduler.activate(t);
        if matches!(transfer, Transfer::ContextSwitch { .. }) {
            cold_starts.push(id);
        }
        // the task runs in user mode until its next syscall
        let action = {
            let entry = scripts.iter_mut().find(|(sid, _)| *sid == id).expect("scripted task");
            entry.1.remove(0)
        };
        let mut f = match action {
            Action::Create(prio) => frame(EXCEPTION_CODE_CREATE, prio, USER_ENTRY),
            Action::MyTid => frame(EXCEPTION_CODE_MY_TID, 0, 0),
            Action::MyParentTid => frame(EXCEPTION_CODE_MY_PARENT_TID, 0, 0),
            Action::Yield => frame(EXCEPTION_CODE_YIELD, 0, 0),
            Action::Exit => frame(EXCEPTION_CODE_EXIT, 0, 0),
        };
        syscall(cpu, &mut f, get_kernel_sp_or(cpu));
        if let Action::Create(_) = action {
            let child_id = f.x0 as u8;
            scripts.push((child_id, child_script()));
        }
        cpu.scheduler.reschedule();
    }
    cold_starts
}

fn get_kernel_sp_or(cpu: &CPU) -> u64 {
    match cpu.scheduler.curr_active() {
        Some(_) => get_kernel_sp(cpu),
        None => 0,
    }
}

fn child_script() -> Vec<Action> {
    vec![
        Action::MyTid,
        Action::MyParentTid,
        Action::Yield,
        Action::MyTid,
        Action::MyParentTid,
        Action::Exit,
    ]
}

#[test]
fn end_to_end_activation_order() {
    // boot creates the root task; the root creates four children with
    // priorities [0, 0, 2, 2] and exits; the children must first run in the
    // order: both priority-2 children in creation order, then both
    // priority-0 children in creation order.
    let mut cpu = CPU::init();
    assert_eq!(cpu.scheduler.create(1, None, USER_ENTRY), 1);
    let mut scripts = vec![(
        1u8,
        vec![
            Action::Create(0),
            Action::Create(0),
            Action::Create(2),
            Action::Create(2),
            Action::Exit,
        ],
    )];
    let cold_starts = run_scripted(&mut cpu, &mut scripts);
    assert_eq!(cold_starts[0], 1);
    let children: Vec<u8> = cold_starts[1..].to_vec();
    assert_eq!(children, vec![4, 5, 2, 3]);
}
