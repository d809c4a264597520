//! The syscall dispatcher: runs inside a trap, decodes the call number from
//! the exception syndrome, executes the matching handler, and leaves the
//! result in the trap frame's first register slot so it becomes the call's
//! visible return value after resumption.
//!
//! The trap-entry primitive that deposits the register snapshot and the
//! switch back into the kernel's own context are target asm outside this
//! library; the dispatcher receives the deposited frame and the address it
//! sits at, and returning from it stands for the switch back to the
//! scheduling loop.

use vstd::prelude::*;

use crate::syscall::{
    EXCEPTION_CODE_CREATE, EXCEPTION_CODE_EXIT, EXCEPTION_CODE_MY_PARENT_TID,
    EXCEPTION_CODE_MY_TID, EXCEPTION_CODE_YIELD,
};
use crate::tasks::{
    create_rel, view_wf, with_trap, SchedView, Scheduler, Task, TaskRunState, TrapFrameRef, CPU,
    MAX_TASKS, OUT_OF_DESCRIPTORS, TASK_SIZE,
};

verus! {

/// Full register snapshot of an interrupted execution point, deposited by
/// the trap-entry primitive on the trapping task's kernel stack.
#[derive(Clone, Copy, Debug, PartialEq, Eq, Structural)]
pub struct ExceptionFrame {
    pub x0: u64,
    pub x1: u64,
    pub x2: u64,
    pub x3: u64,
    pub x4: u64,
    pub x5: u64,
    pub x6: u64,
    pub x7: u64,
    pub x8: u64,
    pub x9: u64,
    pub x10: u64,
    pub x11: u64,
    pub x12: u64,
    pub x13: u64,
    pub x14: u64,
    pub x15: u64,
    pub x16: u64,
    pub x17: u64,
    pub x18: u64,
    pub x19: u64,
    pub x20: u64,
    pub x21: u64,
    pub x22: u64,
    pub x23: u64,
    pub x24: u64,
    pub x25: u64,
    pub x26: u64,
    pub x27: u64,
    pub x28: u64,
    pub x29: u64,
    pub x30: u64,
    pub xzr: u64,
    pub esr: u64,
    pub spsr: u64,
    pub elr: u64,
    pub elr_dup: u64,
}

/// Sentinel written back for a call number the dispatcher does not
/// recognize, distinct from every valid id and from the other sentinels; a
/// defined error result rather than a kernel halt.
pub const UNKNOWN_SYSCALL: i8 = -3;

/// The ISS field of the exception syndrome: its low 25 bits, holding the
/// software-interrupt immediate that selects the call.
pub open spec fn iss_of(esr: u64) -> u64 {
    esr & 0x01FF_FFFF
}

/// Decode the call number from the syndrome the trap entry saved.
fn esr_iss(esr: u64) -> (r: u64)
    ensures
        r == iss_of(esr),
{
    esr & 0x01FF_FFFF
}

/// The id `create` answers with when the scheduler state is `v`: the next id,
/// or the sentinel when the id space or the queue is exhausted.
pub open spec fn create_ret(v: SchedView) -> i8 {
    if v.created >= MAX_TASKS {
        OUT_OF_DESCRIPTORS
    } else if v.ready.len() >= TASK_SIZE {
        OUT_OF_DESCRIPTORS
    } else {
        (v.created + 1) as i8
    }
}

/// What one dispatch does, from the deposited frame and the scheduler state
/// at trap time to both after the handler ran: the frame handle is recorded
/// on the active task, exactly one handler executes, and its result lands in
/// the frame's first register slot — except for Exit, which vacates the
/// active slot and never writes a result, since control never returns to the
/// caller.
pub open spec fn syscall_rel(
    pre: SchedView,
    fpre: ExceptionFrame,
    frame_addr: u64,
    post: SchedView,
    fpost: ExceptionFrame,
) -> bool {
    let t = pre.active.unwrap();
    let h = TrapFrameRef { addr: frame_addr, elr: fpre.elr };
    let recorded = SchedView { active: Some(with_trap(t, h)), ..pre };
    let code = iss_of(fpre.esr);
    if code == EXCEPTION_CODE_CREATE {
        &&& create_rel(
            recorded,
            fpre.x0 as usize,
            Some(t.id),
            fpre.x1,
            create_ret(recorded),
            post,
        )
        &&& fpost == (ExceptionFrame { x0: create_ret(recorded) as u64, ..fpre })
    } else if code == EXCEPTION_CODE_MY_TID {
        &&& post == recorded
        &&& fpost == (ExceptionFrame { x0: t.id as u64, ..fpre })
    } else if code == EXCEPTION_CODE_MY_PARENT_TID {
        &&& post == recorded
        &&& fpost == (ExceptionFrame {
            x0: match t.parent {
                Some(p) => p as u64,
                None => (-1i8) as u64,
            },
            ..fpre
        })
    } else if code == EXCEPTION_CODE_YIELD {
        &&& post == recorded
        &&& fpost == (ExceptionFrame { x0: 0, ..fpre })
    } else if code == EXCEPTION_CODE_EXIT {
        &&& post == (SchedView { active: None, ..pre })
        &&& fpost == fpre
    } else {
        &&& post == recorded
        &&& fpost == (ExceptionFrame { x0: UNKNOWN_SYSCALL as u64, ..fpre })
    }
}

/// Exit law, part one: the Exit call retires the calling task's id — the id
/// was allocated, and after the dispatch it is neither waiting nor active,
/// so no later `schedule` can hand it out.
pub proof fn lemma_exit_retires(
    pre: SchedView,
    fpre: ExceptionFrame,
    frame_addr: u64,
    post: SchedView,
    fpost: ExceptionFrame,
)
    requires
        view_wf(pre),
        pre.active is Some,
        iss_of(fpre.esr) == EXCEPTION_CODE_EXIT,
        syscall_rel(pre, fpre, frame_addr, post, fpost),
    ensures
        crate::tasks::retired(post, pre.active.unwrap().id),
{
}

/// Exit law, part three: no dispatch revives a retired id — the handlers
/// only touch the caller, and a Create hands out an id the allocator has
/// never given before.
pub proof fn lemma_syscall_preserves_retired(
    pre: SchedView,
    fpre: ExceptionFrame,
    frame_addr: u64,
    post: SchedView,
    fpost: ExceptionFrame,
    id: u8,
)
    requires
        view_wf(pre),
        pre.active is Some,
        crate::tasks::retired(pre, id),
        syscall_rel(pre, fpre, frame_addr, post, fpost),
    ensures
        crate::tasks::retired(post, id),
{
    let t = pre.active.unwrap();
    let h = TrapFrameRef { addr: frame_addr, elr: fpre.elr };
    let recorded = SchedView { active: Some(with_trap(t, h)), ..pre };
    let code = iss_of(fpre.esr);
    if code == EXCEPTION_CODE_CREATE {
        crate::tasks::lemma_create_preserves_retired(
            recorded,
            fpre.x0 as usize,
            Some(t.id),
            fpre.x1,
            create_ret(recorded),
            post,
            id,
        );
    }
}

/// Identity survives suspension: a Yield dispatch answers 0, leaves the
/// caller's id on the active task, and the common tail re-queues the task
/// under that same id — so MyTid, which answers the active task's id,
/// observes the same id before the yield and after resumption.
pub proof fn lemma_identity_survives_yield(
    pre: SchedView,
    fpre: ExceptionFrame,
    frame_addr: u64,
    post: SchedView,
    fpost: ExceptionFrame,
    v2: SchedView,
)
    requires
        pre.active is Some,
        iss_of(fpre.esr) == EXCEPTION_CODE_YIELD,
        syscall_rel(pre, fpre, frame_addr, post, fpost),
        crate::tasks::reschedule_rel(post, v2),
    ensures
        fpost.x0 == 0,
        post.active.unwrap().id == pre.active.unwrap().id,
        v2.ready.len() > 0,
        v2.ready.last().id == pre.active.unwrap().id,
{
}

/// Parentage law: a task created through the Create call records the caller
/// as its parent, and MyParentTid answers exactly the recorded parent — the
/// creator's id for a created task, -1 for the boot task, which has none.
pub proof fn lemma_parentage(
    pre: SchedView,
    fpre: ExceptionFrame,
    frame_addr: u64,
    post: SchedView,
    fpost: ExceptionFrame,
)
    requires
        view_wf(pre),
        pre.active is Some,
        iss_of(fpre.esr) == EXCEPTION_CODE_CREATE,
        pre.created < MAX_TASKS,
        pre.ready.len() < TASK_SIZE,
        syscall_rel(pre, fpre, frame_addr, post, fpost),
    ensures
        post.ready.len() > 0,
        post.ready.last().parent == Some(pre.active.unwrap().id),
        post.ready.last().id as u64 == fpost.x0,
{
}

/// Create handler: create a task on behalf of the caller, who becomes its
/// parent; priority and entry point arrive in the frame's first two argument
/// registers.
fn kcreate(sched: &mut Scheduler, frame_x0: u64, frame_x1: u64) -> (r: i8)
    requires
        old(sched).wf(),
        old(sched)@.cnt >= 1,
        old(sched)@.active is Some,
    ensures
        final(sched).wf(),
        view_wf(final(sched)@),
        r == create_ret(old(sched)@),
        create_rel(
            old(sched)@,
            frame_x0 as usize,
            Some(old(sched)@.active.unwrap().id),
            frame_x1,
            r,
            final(sched)@,
        ),
{
    proof {
        crate::tasks::lemma_wf_view_wf(sched);
    }
    let id = match sched.curr_active() {
        Some(t) => t.id,
        None => {
            proof {
                assert(false);
            }
            0
        },
    };
    sched.create(frame_x0 as usize, Some(id), frame_x1)
}

/// MyTid handler: the caller's own id.
fn kmy_tid(sched: &Scheduler) -> (r: i8)
    requires
        sched.wf(),
        sched@.active is Some,
    ensures
        r == sched@.active.unwrap().id as i8,
        r >= 1,
{
    proof {
        crate::tasks::lemma_wf_view_wf(sched);
    }
    match sched.curr_active() {
        Some(t) => t.id as i8,
        None => {
            proof {
                assert(false);
            }
            0
        },
    }
}

/// MyParentTid handler: the parent's id, or -1 for a task with no parent.
fn kmy_parent_tid(sched: &Scheduler) -> (r: i8)
    requires
        sched.wf(),
        sched@.active is Some,
    ensures
        match sched@.active.unwrap().parent {
            Some(p) => r == p as i8 && r >= 1,
            None => r == -1,
        },
{
    proof {
        crate::tasks::lemma_wf_view_wf(sched);
    }
    match sched.curr_active() {
        Some(t) => match t.parent {
            Some(p) => p as i8,
            None => -1,
        },
        None => {
            proof {
                assert(false);
            }
            0
        },
    }
}

/// Yield handler: no queue mutation here; the common tail's implicit
/// re-queue once control is back in the scheduling loop is what yields the
/// processor.
fn kyield() -> (r: i8)
    ensures
        r == 0,
{
    0
}

/// Exit handler: mark the active task Exited and vacate the slot without
/// re-queueing; on hardware this handler switches straight into the
/// processor's anchor context and never returns to the caller.
fn kexit(sched: &mut Scheduler)
    requires
        old(sched).wf(),
        old(sched)@.active is Some,
    ensures
        final(sched).wf(),
        view_wf(final(sched)@),
        final(sched)@ == (SchedView { active: None, ..old(sched)@ }),
{
    let _exited = sched.exit_active();
}

/// The kernel-stack base of the active task, for the trap entry to install.
pub fn get_kernel_sp(cpu: &CPU) -> (r: u64)
    requires
        cpu.scheduler.wf(),
        cpu.scheduler@.active is Some,
    ensures
        r == cpu.scheduler@.active.unwrap().kernel_sp,
{
    match cpu.scheduler.curr_active() {
        Some(t) => t.kernel_sp,
        None => {
            proof {
                assert(false);
            }
            0
        },
    }
}

/// Look up which syscall to execute and execute it. Records the frame handle
/// on the active task, decodes the call number from the syndrome, dispatches
/// to exactly one handler, and writes the signed 8-bit result into the
/// frame's first register slot — for every call but Exit, which leaves no
/// result because control never returns to its caller. Returning from here
/// stands for the unconditional switch back into the kernel's own context.
pub fn syscall(cpu: &mut CPU, exception_frame: &mut ExceptionFrame, frame_addr: u64)
    requires
        old(cpu).scheduler.wf(),
        old(cpu).scheduler@.active is Some,
        old(cpu).scheduler@.cnt >= 1,
    ensures
        final(cpu).scheduler.wf(),
        view_wf(final(cpu).scheduler@),
        final(cpu).context == old(cpu).context,
        syscall_rel(
            old(cpu).scheduler@,
            *old(exception_frame),
            frame_addr,
            final(cpu).scheduler@,
            *final(exception_frame),
        ),
{
    proof {
        crate::tasks::lemma_wf_view_wf(&cpu.scheduler);
    }
    let code = esr_iss(exception_frame.esr);
    let h = TrapFrameRef { addr: frame_addr, elr: exception_frame.elr };
    cpu.scheduler.record_trap(h);
    if code == EXCEPTION_CODE_MY_TID {
        let ret = kmy_tid(&cpu.scheduler);
        exception_frame.x0 = ret as u64;
    } else if code == EXCEPTION_CODE_CREATE {
        let ret = kcreate(&mut cpu.scheduler, exception_frame.x0, exception_frame.x1);
        exception_frame.x0 = ret as u64;
    } else if code == EXCEPTION_CODE_MY_PARENT_TID {
        let ret = kmy_parent_tid(&cpu.scheduler);
        exception_frame.x0 = ret as u64;
    } else if code == EXCEPTION_CODE_EXIT {
        kexit(&mut cpu.scheduler);
    } else if code == EXCEPTION_CODE_YIELD {
        let ret = kyield();
        exception_frame.x0 = ret as u64;
    } else {
        exception_frame.x0 = UNKNOWN_SYSCALL as u64;
    }
}

} // verus!
