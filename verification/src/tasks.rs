//! Task descriptors, the scheduler and its single active slot, and the
//! processor record that anchors the kernel's own context.
//!
//! The scheduler owns a bounded priority queue of task descriptors. Tasks are
//! ordered by `(priority, sequence value)`: a larger priority is more urgent,
//! and among equal priorities the larger sequence value wins. The sequence
//! counter only ever decreases, and a task draws a fresh value both at
//! creation and at every re-queue, so all sequence values in the queue are
//! distinct and equal-priority tasks leave the queue in the order they
//! entered it.
//!
//! The register-switch and trap-return primitives that hand the processor to
//! a task are target-specific collaborators; `activate` returns a [`Transfer`]
//! record saying which of them the surrounding loop must perform, with the
//! values it must be given.

use vstd::prelude::*;

use crate::ready_queue::{key_le, queue_contents, queue_new, queue_pop, queue_push, KeyHeap, SchedKey};

verus! {

/// Sentinel returned by `create` when no descriptor slot is available,
/// distinct from every valid task id.
pub const OUT_OF_DESCRIPTORS: i8 = -2;

/// Number of task descriptors the ready queue can hold at once.
pub const TASK_SIZE: usize = 50;

/// Largest task id the kernel hands out: ids are returned to user tasks in a
/// signed 8-bit result, and each id claims a fixed stack region that is never
/// reclaimed, so the allocator stops here rather than wrap around.
pub const MAX_TASKS: u64 = 127;

/// Per-task kernel stack stride.
pub const PER_TASK_KERNEL_STACK_SIZE: u64 = 0x400;

/// Per-task user stack stride.
pub const USER_STACK_SIZE: u64 = 0x800;

/// Base address of the kernel stack region.
pub const KERNEL_STACK_START: u64 = 0x20000;

/// Base address of the user stack region.
pub const USER_STACK_START: u64 = 0x50000;

/// The run state of a task. The four blocked states are reserved for a
/// message-passing extension; no transition reaches them.
#[derive(Clone, Copy, Debug, PartialEq, Eq, Structural)]
pub enum TaskRunState {
    Active,
    Ready,
    Exited,
    SendBlocked,
    ReceiveBlocked,
    ReplyBlocked,
    EventBlocked,
}

/// The callee-saved register set plus stack pointer that the register-switch
/// primitive saves and restores. The values are opaque to the kernel logic:
/// it only allocates zeroed records and hands pairs of them to the switch.
#[derive(Clone, Copy, Debug, PartialEq, Eq, Structural)]
pub struct Context {
    pub x19: u64,
    pub x20: u64,
    pub x21: u64,
    pub x22: u64,
    pub x23: u64,
    pub x24: u64,
    pub x25: u64,
    pub x26: u64,
    pub x27: u64,
    pub x28: u64,
    pub x29: u64,
    pub x30: u64,
    pub sp: u64,
}

impl Context {
    /// A zeroed register record, as allocated for a task's first activation.
    pub fn new() -> (r: Context)
        ensures
            r == Context::zeroed(),
    {
        Context {
            x19: 0,
            x20: 0,
            x21: 0,
            x22: 0,
            x23: 0,
            x24: 0,
            x25: 0,
            x26: 0,
            x27: 0,
            x28: 0,
            x29: 0,
            x30: 0,
            sp: 0,
        }
    }

    /// The zeroed register record.
    pub open spec fn zeroed() -> Context {
        Context {
            x19: 0,
            x20: 0,
            x21: 0,
            x22: 0,
            x23: 0,
            x24: 0,
            x25: 0,
            x26: 0,
            x27: 0,
            x28: 0,
            x29: 0,
            x30: 0,
            sp: 0,
        }
    }
}

/// What survives of a trap frame across scheduling rounds: the address the
/// frame was deposited at and the interrupted program counter saved in it.
/// The resume branch of `activate` consumes exactly these two values.
#[derive(Clone, Copy, Debug, PartialEq, Eq, Structural)]
pub struct TrapFrameRef {
    pub addr: u64,
    pub elr: u64,
}

/// One schedulable unit.
#[derive(Debug)]
pub struct Task {
    /// Unique id, assigned at creation, immutable for the task's lifetime.
    pub id: u8,
    /// Larger is more urgent.
    pub priority: usize,
    /// Sequence value drawn from the global decreasing counter; breaks ties
    /// among equal priorities in favour of the earlier-queued task.
    pub cnt: usize,
    /// Id of the creating task, `None` for the boot task.
    pub parent: Option<u8>,
    pub run_state: TaskRunState,
    /// Present exactly while the task is paused inside a syscall, pending
    /// resumption by trap-return.
    pub trap_frame: Option<TrapFrameRef>,
    /// Present once the task has been started through the register switch.
    pub context: Option<Context>,
    /// Kernel-stack base the id's fixed stack region gives.
    pub kernel_sp: u64,
    /// User-stack base the id's fixed stack region gives.
    pub starting_sp: u64,
    /// Entry point address, consumed on first activation.
    pub fn_ptr: u64,
}

/// Which transfer of control the hardware layer must perform for a task that
/// `activate` has installed in the active slot. Performing it is target
/// asm (a trap-return or a register switch) and stands outside this library;
/// control comes back to the scheduling loop at the task's next syscall.
#[derive(Clone, Copy, Debug, PartialEq, Eq, Structural)]
pub enum Transfer {
    /// The task had already exited; nothing was installed and nothing runs.
    Skipped,
    /// Resume the task at its interrupted instruction via trap-return: program
    /// the privilege-return state with the saved program counter and the
    /// address of the deposited trap frame, which still holds the full user
    /// register set.
    TrapReturn { elr: u64, frame_addr: u64 },
    /// Start or resume the task through the register switch, out of the
    /// processor's anchor context into the task's saved context; on a first
    /// activation the privilege-return state is programmed with the entry
    /// point and a fresh user stack top.
    ContextSwitch { entry: u64, user_sp: u64 },
}

/// The scheduling key of a task: `(priority, sequence value, id)`.
pub open spec fn key(t: Task) -> SchedKey {
    (t.priority, t.cnt, t.id)
}

/// Field ranges every descriptor respects.
pub open spec fn task_wf(t: Task) -> bool {
    &&& 1 <= t.id <= MAX_TASKS
    &&& match t.parent {
        Some(p) => 1 <= p <= MAX_TASKS,
        None => true,
    }
}

/// The scheduler's state as plain mathematical data.
pub struct SchedView {
    /// The single active slot.
    pub active: Option<Task>,
    /// The descriptors waiting in the ready queue, in no particular order.
    pub ready: Seq<Task>,
    /// The global decreasing sequence counter.
    pub cnt: int,
    /// How many tasks have ever been created.
    pub created: int,
}

/// Well-formedness of a scheduler state: bounded counts, every waiting
/// descriptor Ready with distinct id and sequence value, and the active task,
/// if any, Active and distinct from all waiting descriptors.
pub open spec fn view_wf(v: SchedView) -> bool {
    &&& v.ready.len() <= TASK_SIZE
    &&& 0 <= v.created <= MAX_TASKS
    &&& 0 <= v.cnt <= usize::MAX
    &&& forall|i: int| 0 <= i < v.ready.len() ==> {
        &&& task_wf(#[trigger] v.ready[i])
        &&& v.ready[i].run_state == TaskRunState::Ready
        &&& v.ready[i].cnt >= v.cnt
        &&& v.ready[i].id <= v.created
    }
    &&& forall|i: int, j: int|
        0 <= i < j < v.ready.len() ==> #[trigger] v.ready[i].id != #[trigger] v.ready[j].id
            && v.ready[i].cnt != v.ready[j].cnt
    &&& match v.active {
        Some(t) => {
            &&& task_wf(t)
            &&& t.run_state == TaskRunState::Active
            &&& t.cnt >= v.cnt
            &&& t.id <= v.created
            &&& forall|i: int|
                0 <= i < v.ready.len() ==> (#[trigger] v.ready[i]).id != t.id
                    && v.ready[i].cnt != t.cnt
        },
        None => true,
    }
}

/// A descriptor that may enter this scheduler state: well-formed, Ready, with
/// an id that was allocated and collides with nothing waiting or active.
pub open spec fn fits(v: SchedView, t: Task) -> bool {
    &&& task_wf(t)
    &&& t.run_state == TaskRunState::Ready
    &&& t.cnt >= v.cnt
    &&& t.id <= v.created
    &&& forall|i: int|
        0 <= i < v.ready.len() ==> (#[trigger] v.ready[i]).id != t.id && v.ready[i].cnt != t.cnt
    &&& match v.active {
        Some(a) => a.id != t.id && a.cnt != t.cnt,
        None => true,
    }
}

/// The descriptor `create` builds when the scheduler state is `v`: the next
/// id, a fresh sequence value, Ready, no trap frame and no saved context yet,
/// and stack bases at a fixed stride per id. Stack addresses are never
/// reclaimed, not even after exit: with at most [`MAX_TASKS`] ids this is a
/// documented resource-exhaustion limit, not a leak the logic must mend.
pub open spec fn new_task(v: SchedView, priority: usize, parent: Option<u8>, entry: u64) -> Task {
    Task {
        id: (v.created + 1) as u8,
        priority,
        cnt: (v.cnt - 1) as usize,
        parent,
        run_state: TaskRunState::Ready,
        trap_frame: None,
        context: None,
        kernel_sp: (KERNEL_STACK_START - (v.created + 1) * PER_TASK_KERNEL_STACK_SIZE) as u64,
        starting_sp: (USER_STACK_START - (v.created + 1) * USER_STACK_SIZE) as u64,
        fn_ptr: entry,
    }
}

/// What `create(priority, parent, entry)` does to the scheduler: either the
/// new descriptor enters the ready queue and its id is returned, or nothing
/// enters and the sentinel is returned. The id allocator refusing (first
/// branch) consumes nothing; the queue refusing (second branch) still
/// consumed the id and the sequence value, as the original allocation order
/// has it.
pub open spec fn create_rel(
    pre: SchedView,
    priority: usize,
    parent: Option<u8>,
    entry: u64,
    ret: i8,
    post: SchedView,
) -> bool {
    &&& post.active == pre.active
    &&& if pre.created >= MAX_TASKS {
        &&& ret == OUT_OF_DESCRIPTORS
        &&& post.ready == pre.ready
        &&& post.cnt == pre.cnt
        &&& post.created == pre.created
    } else if pre.ready.len() >= TASK_SIZE {
        &&& ret == OUT_OF_DESCRIPTORS
        &&& post.ready == pre.ready
        &&& post.cnt == pre.cnt - 1
        &&& post.created == pre.created + 1
    } else {
        &&& ret as int == pre.created + 1
        &&& post.ready == pre.ready.push(new_task(pre, priority, parent, entry))
        &&& post.cnt == pre.cnt - 1
        &&& post.created == pre.created + 1
    }
}

/// The task as it re-enters the ready queue: Ready again, with a fresh
/// sequence value drawn below everything the counter has handed out before,
/// so a re-queued task stands behind every equal-priority task already
/// waiting.
pub open spec fn requeued(v: SchedView, t: Task) -> Task {
    Task { cnt: (v.cnt - 1) as usize, run_state: TaskRunState::Ready, ..t }
}

/// What a successful re-queue does to the scheduler.
pub open spec fn push_rel(pre: SchedView, t: Task, post: SchedView) -> bool {
    &&& post.active == pre.active
    &&& post.ready == pre.ready.push(requeued(pre, t))
    &&& post.cnt == pre.cnt - 1
    &&& post.created == pre.created
}

/// A task the scheduler may accept back into the ready queue: well-formed,
/// not Exited (Exited is terminal: such a task is never re-inserted), with an
/// id that was allocated and collides with nothing waiting or active.
pub open spec fn admissible(v: SchedView, t: Task) -> bool {
    &&& task_wf(t)
    &&& t.run_state != TaskRunState::Exited
    &&& t.id <= v.created
    &&& forall|i: int| 0 <= i < v.ready.len() ==> (#[trigger] v.ready[i]).id != t.id
    &&& match v.active {
        Some(a) => a.id != t.id,
        None => true,
    }
}

/// `t` is what `schedule` hands out when the waiting descriptors are `pre`,
/// leaving `post` waiting: `t` was waiting, everything else keeps waiting,
/// and no waiting task beats `t` in the `(priority, sequence value)` order.
pub open spec fn schedules_to(pre: Seq<Task>, t: Task, post: Seq<Task>) -> bool {
    &&& exists|i: int| 0 <= i < pre.len() && pre[i] == t && post == pre.remove(i)
    &&& forall|j: int| 0 <= j < pre.len() ==> key_le(key(#[trigger] pre[j]), key(t))
}

/// The task with a trap frame handle recorded on it.
pub open spec fn with_trap(t: Task, h: TrapFrameRef) -> Task {
    Task { trap_frame: Some(h), ..t }
}

/// What `activate(task)` does and which transfer it asks for: an Exited task
/// is defensively skipped; a task paused inside a syscall is resumed by
/// trap-return at its recorded frame; any other task goes through the
/// register switch, receiving a zeroed context record on its first
/// activation. In the two live branches the task occupies the active slot,
/// marked Active, before the transfer is performed.
pub open spec fn activate_rel(pre: SchedView, task: Task, r: Transfer, post: SchedView) -> bool {
    if task.run_state == TaskRunState::Exited {
        &&& r == Transfer::Skipped
        &&& post == pre
    } else {
        &&& post.ready == pre.ready
        &&& post.cnt == pre.cnt
        &&& post.created == pre.created
        &&& match task.trap_frame {
            Some(h) => {
                &&& r == (Transfer::TrapReturn { elr: h.elr, frame_addr: h.addr })
                &&& post.active == Some(Task { run_state: TaskRunState::Active, ..task })
            },
            None => {
                &&& r == (Transfer::ContextSwitch {
                    entry: task.fn_ptr,
                    user_sp: task.starting_sp,
                })
                &&& post.active == Some(
                    Task {
                        run_state: TaskRunState::Active,
                        context: if task.context is Some {
                            task.context
                        } else {
                            Some(Context::zeroed())
                        },
                        ..task
                    },
                )
            },
        }
    }
}

/// What `reschedule` does: vacate the active slot, re-queueing its occupant
/// if there was one.
pub open spec fn reschedule_rel(pre: SchedView, post: SchedView) -> bool {
    match pre.active {
        Some(t) => {
            &&& post.active is None
            &&& post.ready == pre.ready.push(requeued(pre, t))
            &&& post.cnt == pre.cnt - 1
            &&& post.created == pre.created
        },
        None => post == pre,
    }
}

/// The scheduler: the ready queue, the single active slot, the sequence
/// counter and the id allocator.
pub struct Scheduler {
    active_task: Option<Task>,
    ready_queue: KeyHeap,
    /// Descriptor storage for the waiting tasks; the heap holds their keys.
    descriptors: Vec<Task>,
    /// Global decreasing sequence counter.
    cnt: usize,
    /// Total number of tasks ever created.
    num_tasks: u64,
}

impl View for Scheduler {
    type V = SchedView;

    closed spec fn view(&self) -> SchedView {
        SchedView {
            active: self.active_task,
            ready: self.descriptors@,
            cnt: self.cnt as int,
            created: self.num_tasks as int,
        }
    }
}

impl Scheduler {
    /// The heap of keys mirrors the stored descriptors, and the plain state is
    /// well-formed.
    pub closed spec fn wf(&self) -> bool {
        &&& view_wf(self@)
        &&& queue_contents(self.ready_queue) == self.descriptors@.map_values(
            |t: Task| key(t),
        ).to_multiset()
    }

    /// A fresh scheduler: nothing active, nothing waiting, the sequence
    /// counter at its start and no ids handed out.
    pub fn new() -> (s: Scheduler)
        ensures
            s.wf(),
            s@.active is None,
            s@.ready.len() == 0,
            s@.cnt == usize::MAX,
            s@.created == 0,
    {
        let s = Scheduler {
            active_task: None,
            ready_queue: queue_new(),
            descriptors: Vec::new(),
            cnt: usize::MAX,
            num_tasks: 0,
        };
        proof {
            assert(s.descriptors@.map_values(|t: Task| key(t)) =~= Seq::<SchedKey>::empty());
            s.descriptors@.map_values(|t: Task| key(t)).to_multiset_ensures();
            assert(queue_contents(s.ready_queue) =~= s.descriptors@.map_values(
                |t: Task| key(t),
            ).to_multiset());
        }
        s
    }

    /// How many tasks have been created so far.
    pub fn task_num(&self) -> (r: u64)
        ensures
            r == self@.created,
    {
        self.num_tasks
    }

    /// The task currently holding the processor, if any.
    pub fn curr_active(&self) -> (r: Option<&Task>)
        ensures
            match r {
                Some(t) => self@.active == Some(*t),
                None => self@.active is None,
            },
    {
        self.active_task.as_ref()
    }

    /// Create a task: allocate the next id, draw a fresh sequence value,
    /// compute the stack bases for that id, and insert the descriptor into
    /// the ready queue with state Ready. Fails with the sentinel — never
    /// fatally — when the id space or the queue is exhausted; a full queue
    /// leaves the waiting descriptors exactly as they were.
    pub fn create(&mut self, priority: usize, parent: Option<u8>, fn_ptr: u64) -> (r: i8)
        requires
            old(self).wf(),
            old(self)@.cnt >= 1,
            match parent {
                Some(p) => 1 <= p <= MAX_TASKS,
                None => true,
            },
        ensures
            final(self).wf(),
            view_wf(final(self)@),
            create_rel(old(self)@, priority, parent, fn_ptr, r, final(self)@),
    {
        if self.num_tasks >= MAX_TASKS {
            return OUT_OF_DESCRIPTORS;
        }
        self.num_tasks = self.num_tasks + 1;
        self.cnt = self.cnt - 1;
        let num = self.num_tasks;
        let task = Task {
            id: num as u8,
            priority,
            cnt: self.cnt,
            parent,
            run_state: TaskRunState::Ready,
            trap_frame: None,
            context: None,
            kernel_sp: KERNEL_STACK_START - num * PER_TASK_KERNEL_STACK_SIZE,
            starting_sp: USER_STACK_START - num * USER_STACK_SIZE,
            fn_ptr,
        };
        let k = (task.priority, task.cnt, task.id);
        proof {
            old(self).descriptors@.map_values(|t: Task| key(t)).to_multiset_ensures();
        }
        match queue_push(&mut self.ready_queue, k) {
            Ok(()) => {
                proof {
                    let f = |t: Task| key(t);
                    assert(self.descriptors@.push(task).map_values(f) =~= self.descriptors@
                        .map_values(f).push(k));
                    self.descriptors@.map_values(f).to_multiset_ensures();
                }
                self.descriptors.push(task);
                num as i8
            },
            Err(_) => OUT_OF_DESCRIPTORS,
        }
    }

    /// Re-insert a task into the ready queue, drawing it a fresh sequence
    /// value so it queues behind every equal-priority task already waiting.
    /// Fails, handing the task back untouched, exactly when the queue is
    /// full.
    pub fn push(&mut self, task: Task) -> (r: Result<(), Task>)
        requires
            old(self).wf(),
            old(self)@.cnt >= 1,
            admissible(old(self)@, task),
        ensures
            final(self).wf(),
            view_wf(final(self)@),
            match r {
                Ok(()) => old(self)@.ready.len() < TASK_SIZE && push_rel(
                    old(self)@,
                    task,
                    final(self)@,
                ),
                Err(t) => t == task && old(self)@.ready.len() >= TASK_SIZE && final(self)@ == old(
                    self,
                )@,
            },
    {
        if self.descriptors.len() >= TASK_SIZE {
            return Err(task);
        }
        self.cnt = self.cnt - 1;
        let t2 = Task { cnt: self.cnt, run_state: TaskRunState::Ready, ..task };
        let k = (t2.priority, t2.cnt, t2.id);
        proof {
            old(self).descriptors@.map_values(|t: Task| key(t)).to_multiset_ensures();
        }
        match queue_push(&mut self.ready_queue, k) {
            Ok(()) => {
                proof {
                    let f = |t: Task| key(t);
                    assert(self.descriptors@.push(t2).map_values(f) =~= self.descriptors@
                        .map_values(f).push(k));
                    self.descriptors@.map_values(f).to_multiset_ensures();
                }
                self.descriptors.push(t2);
                Ok(())
            },
            Err(_) => {
                proof {
                    assert(false);
                }
                Err(t2)
            },
        }
    }

    /// Hand out the waiting task with the greatest `(priority, sequence
    /// value)`, removing it from the ready queue, or `None` when nothing
    /// waits.
    pub fn schedule(&mut self) -> (r: Option<Task>)
        requires
            old(self).wf(),
        ensures
            final(self).wf(),
            view_wf(final(self)@),
            final(self)@.active == old(self)@.active,
            final(self)@.cnt == old(self)@.cnt,
            final(self)@.created == old(self)@.created,
            match r {
                None => old(self)@.ready.len() == 0 && final(self)@.ready == old(self)@.ready,
                Some(t) => schedules_to(old(self)@.ready, t, final(self)@.ready) && t.run_state
                    == TaskRunState::Ready && fits(final(self)@, t),
            },
    {
        proof {
            self.descriptors@.map_values(|t: Task| key(t)).to_multiset_ensures();
        }
        let popped = queue_pop(&mut self.ready_queue);
        match popped {
            None => {
                proof {
                    assert(self.descriptors@.map_values(|t: Task| key(t)).len() == 0);
                    assert(self.descriptors@ =~= Seq::<Task>::empty());
                }
                None
            },
            Some(k) => {
                proof {
                    let f = |t: Task| key(t);
                    let m = self.descriptors@.map_values(f);
                    assert(m.to_multiset().count(k) > 0);
                    assert(m.contains(k));
                }
                let mut i: usize = 0;
                while i < self.descriptors.len()
                    invariant
                        old(self).wf(),
                        i <= self.descriptors.len(),
                        self.descriptors == old(self).descriptors,
                        self.active_task == old(self).active_task,
                        self.cnt == old(self).cnt,
                        self.num_tasks == old(self).num_tasks,
                        queue_contents(self.ready_queue) == old(self).descriptors@.map_values(
                            |t: Task| key(t),
                        ).to_multiset().remove(k),
                        forall|x: SchedKey|
                            old(self).descriptors@.map_values(|t: Task| key(t)).to_multiset().count(
                                x,
                            ) > 0 ==> key_le(x, k),
                        forall|j: int| 0 <= j < i ==> key(#[trigger] self.descriptors@[j]) != k,
                        exists|j: int|
                            0 <= j < self.descriptors@.len() && key(
                                #[trigger] self.descriptors@[j],
                            ) == k,
                    decreases self.descriptors@.len() - i,
                {
                    if self.descriptors[i].priority == k.0 && self.descriptors[i].cnt == k.1
                        && self.descriptors[i].id == k.2 {
                        let ghost pre = self.descriptors@;
                        let ghost f = |t: Task| key(t);
                        let t = self.descriptors.remove(i);
                        proof {
                            assert(pre.remove(i as int).map_values(f) =~= pre.map_values(f).remove(
                                i as int,
                            ));
                            pre.map_values(f).to_multiset_ensures();
                            assert(pre.map_values(f)[i as int] == k);
                            assert(self.descriptors@.map_values(f).to_multiset() == pre.map_values(
                                f,
                            ).to_multiset().remove(k));
                            assert forall|j: int| 0 <= j < pre.len() implies key_le(
                                key(#[trigger] pre[j]),
                                key(t),
                            ) by {
                                assert(pre.map_values(f)[j] == key(pre[j]));
                                assert(pre.map_values(f).to_multiset().count(key(pre[j])) > 0);
                            }
                            assert(schedules_to(pre, t, self.descriptors@));
                        }
                        return Some(t);
                    }
                    i = i + 1;
                }
                proof {
                    assert(false);
                }
                None
            },
        }
    }

    /// The central operation: install a task in the active slot and say which
    /// transfer of control starts or resumes it. An Exited task is a
    /// defensive no-op, never resumed.
    pub fn activate(&mut self, task: Task) -> (r: Transfer)
        requires
            old(self).wf(),
            old(self)@.active is None,
            task.run_state != TaskRunState::Exited ==> fits(old(self)@, task) && task.run_state
                == TaskRunState::Ready,
        ensures
            final(self).wf(),
            view_wf(final(self)@),
            activate_rel(old(self)@, task, r, final(self)@),
    {
        if task.run_state == TaskRunState::Exited {
            return Transfer::Skipped;
        }
        if let Some(h) = task.trap_frame {
            self.active_task = Some(Task { run_state: TaskRunState::Active, ..task });
            Transfer::TrapReturn { elr: h.elr, frame_addr: h.addr }
        } else {
            let entry = task.fn_ptr;
            let user_sp = task.starting_sp;
            let context = match task.context {
                Some(c) => Some(c),
                None => Some(Context::new()),
            };
            self.active_task = Some(
                Task { run_state: TaskRunState::Active, context, ..task },
            );
            Transfer::ContextSwitch { entry, user_sp }
        }
    }

    /// Vacate the active slot, re-queueing its occupant: the implicit
    /// re-queue of the common syscall tail, once control has come back to the
    /// scheduling loop.
    pub fn reschedule(&mut self)
        requires
            old(self).wf(),
            old(self)@.cnt >= 1,
            old(self)@.active is Some ==> old(self)@.ready.len() < TASK_SIZE,
        ensures
            final(self).wf(),
            view_wf(final(self)@),
            reschedule_rel(old(self)@, final(self)@),
    {
        let task = self.active_task.take();
        if let Some(t) = task {
            let r = self.push(t);
            match r {
                Ok(()) => {},
                Err(_) => {
                    proof {
                        assert(false);
                    }
                },
            }
        }
    }

    /// Record the deposited trap frame's handle on the active task; the
    /// resume branch of `activate` later consumes it.
    pub fn record_trap(&mut self, frame: TrapFrameRef)
        requires
            old(self).wf(),
            old(self)@.active is Some,
        ensures
            final(self).wf(),
            view_wf(final(self)@),
            final(self)@ == (SchedView {
                active: Some(with_trap(old(self)@.active.unwrap(), frame)),
                ..old(self)@
            }),
    {
        match &mut self.active_task {
            Some(t) => {
                t.trap_frame = Some(frame);
            },
            None => {},
        }
    }

    /// Terminate the active task: mark it Exited and vacate the slot without
    /// re-queueing. Exited is terminal; the descriptor is handed back only so
    /// a caller may observe it, the scheduler keeps no path to it.
    pub fn exit_active(&mut self) -> (t: Task)
        requires
            old(self).wf(),
            old(self)@.active is Some,
        ensures
            final(self).wf(),
            view_wf(final(self)@),
            t == (Task { run_state: TaskRunState::Exited, ..old(self)@.active.unwrap() }),
            final(self)@ == (SchedView { active: None, ..old(self)@ }),
    {
        let taken = self.active_task.take();
        match taken {
            Some(task) => {
                let mut t = task;
                t.run_state = TaskRunState::Exited;
                t
            },
            None => {
                proof {
                    assert(false);
                }
                unreached()
            },
        }
    }
}

/// Scheduling order law: of two tasks handed out back to back, the second
/// never has the higher priority, and among equal priorities the one with the
/// larger sequence value — the earlier-queued — comes out strictly first.
pub proof fn lemma_activation_order(
    r0: Seq<Task>,
    t1: Task,
    r1: Seq<Task>,
    t2: Task,
    r2: Seq<Task>,
)
    requires
        schedules_to(r0, t1, r1),
        schedules_to(r1, t2, r2),
        forall|i: int, j: int| 0 <= i < j < r0.len() ==> r0[i].cnt != r0[j].cnt,
    ensures
        t2.priority <= t1.priority,
        t2.priority == t1.priority ==> t2.cnt < t1.cnt,
{
    let j = choose|j: int| 0 <= j < r0.len() && r0[j] == t1 && r1 == r0.remove(j);
    let i = choose|i: int| 0 <= i < r1.len() && r1[i] == t2 && r2 == r1.remove(i);
    let i0: int = if i < j {
        i
    } else {
        i + 1
    };
    assert(r0.remove(j)[i] == r0[i0]);
    assert(r0[i0] == t2);
    assert(key_le(key(t2), key(t1)));
    if t2.priority == t1.priority {
        if i0 < j {
            assert(r0[i0].cnt != r0[j].cnt);
        } else {
            assert(r0[j].cnt != r0[i0].cnt);
        }
    }
}

/// Tie-break direction: among waiting tasks of equal priority, the one with
/// the larger sequence value is handed out first — and since the counter only
/// ever decreases, that is the task that entered the queue first.
pub proof fn lemma_tie_break_direction(r: Seq<Task>, t: Task, post: Seq<Task>, i: int)
    requires
        schedules_to(r, t, post),
        0 <= i < r.len(),
        r[i].priority == t.priority,
        r[i].cnt != t.cnt,
    ensures
        r[i].cnt < t.cnt,
{
}

/// Creation order law: of two tasks created one after the other, the second
/// draws a strictly smaller sequence value and a strictly larger id, so among
/// equal priorities the scheduling order above is the creation order.
pub proof fn lemma_creation_sequence_decreases(
    v0: SchedView,
    p1: usize,
    par1: Option<u8>,
    e1: u64,
    ret1: i8,
    v1: SchedView,
    p2: usize,
    par2: Option<u8>,
    e2: u64,
    ret2: i8,
    v2: SchedView,
)
    requires
        view_wf(v0),
        v0.cnt >= 2,
        create_rel(v0, p1, par1, e1, ret1, v1),
        ret1 >= 0,
        create_rel(v1, p2, par2, e2, ret2, v2),
        ret2 >= 0,
    ensures
        v2.ready == v0.ready.push(new_task(v0, p1, par1, e1)).push(new_task(v1, p2, par2, e2)),
        new_task(v1, p2, par2, e2).cnt < new_task(v0, p1, par1, e1).cnt,
        new_task(v1, p2, par2, e2).id > new_task(v0, p1, par1, e1).id,
{
}

/// A task id no longer present anywhere in the scheduler: it was allocated,
/// but it is neither waiting in the ready queue nor in the active slot.
pub open spec fn retired(v: SchedView, id: u8) -> bool {
    &&& 1 <= id <= v.created
    &&& forall|i: int| 0 <= i < v.ready.len() ==> (#[trigger] v.ready[i]).id != id
    &&& match v.active {
        Some(t) => t.id != id,
        None => true,
    }
}

/// Exit law, part two: `schedule` never hands out a task with a retired id.
pub proof fn lemma_retired_never_scheduled(v: SchedView, id: u8, t: Task, post: Seq<Task>)
    requires
        retired(v, id),
        schedules_to(v.ready, t, post),
    ensures
        t.id != id,
{
}

/// Exit law: creating a task never revives a retired id — the allocator only
/// moves forward.
pub proof fn lemma_create_preserves_retired(
    v0: SchedView,
    p: usize,
    par: Option<u8>,
    e: u64,
    ret: i8,
    v1: SchedView,
    id: u8,
)
    requires
        retired(v0, id),
        create_rel(v0, p, par, e, ret, v1),
    ensures
        retired(v1, id),
{
    if v0.created < MAX_TASKS && v0.ready.len() < TASK_SIZE {
        assert(v1.ready.last() == new_task(v0, p, par, e));
        assert(new_task(v0, p, par, e).id as int == v0.created + 1);
        assert(forall|i: int|
            0 <= i < v1.ready.len() ==> (#[trigger] v1.ready[i]).id != id) by {
            assert(forall|i: int|
                0 <= i < v0.ready.len() ==> #[trigger] v1.ready[i] == v0.ready[i]);
        }
    }
}

/// Exit law: handing a task out keeps every retired id retired.
pub proof fn lemma_schedule_preserves_retired(v: SchedView, t: Task, post: Seq<Task>, id: u8)
    requires
        retired(v, id),
        schedules_to(v.ready, t, post),
    ensures
        retired(SchedView { ready: post, ..v }, id),
{
    let i = choose|i: int| 0 <= i < v.ready.len() && v.ready[i] == t && post == v.ready.remove(i);
    assert(forall|j: int| 0 <= j < post.len() ==> (#[trigger] post[j]).id != id) by {
        assert(forall|j: int|
            0 <= j < post.len() ==> post[j] == (if j < i {
                v.ready[j]
            } else {
                v.ready[j + 1]
            }));
    }
}

/// Exit law: activating a task with a different id keeps a retired id
/// retired — and an Exited task is never installed at all.
pub proof fn lemma_activate_preserves_retired(
    pre: SchedView,
    task: Task,
    r: Transfer,
    post: SchedView,
    id: u8,
)
    requires
        retired(pre, id),
        task.id != id,
        activate_rel(pre, task, r, post),
    ensures
        retired(post, id),
{
}

/// Exit law: the common tail's re-queue keeps every retired id retired.
pub proof fn lemma_reschedule_preserves_retired(pre: SchedView, post: SchedView, id: u8)
    requires
        retired(pre, id),
        reschedule_rel(pre, post),
    ensures
        retired(post, id),
{
    match pre.active {
        Some(t) => {
            assert(post.ready.last().id == t.id);
            assert(forall|i: int|
                0 <= i < pre.ready.len() ==> #[trigger] post.ready[i] == pre.ready[i]);
        },
        None => {},
    }
}

/// A well-formed scheduler's plain state is well-formed.
pub proof fn lemma_wf_view_wf(s: &Scheduler)
    requires
        s.wf(),
    ensures
        view_wf(s@),
{
}

/// The processor singleton: the kernel's own anchor context and the
/// scheduler. Built once at boot and passed by reference into every
/// kernel-entry function.
pub struct CPU {
    pub scheduler: Scheduler,
    pub context: Context,
}

impl CPU {
    /// The processor as it stands at boot: a fresh scheduler and a zeroed
    /// anchor context.
    pub fn init() -> (c: CPU)
        ensures
            c.scheduler.wf(),
            c.scheduler@.active is None,
            c.scheduler@.ready.len() == 0,
            c.scheduler@.cnt == usize::MAX,
            c.scheduler@.created == 0,
            c.context == Context::zeroed(),
    {
        CPU { scheduler: Scheduler::new(), context: Context::new() }
    }
}

} // verus!
