//! The preemptive task scheduler: owns the task set, and on each timer
//! tick or explicit yield stashes the running task's live registers back
//! into its context, picks the next task — highest priority wins, equal
//! priorities are served round-robin relative to the task that ran last —
//! and restores the chosen task's registers into the context the trap
//! will resume from. A terminated task is never selected again; with no
//! ready task at all the scheduler idles, leaving every context as it is.

use vstd::prelude::*;
use crate::interupt::ExceptionContext;

verus! {

/// Liveness tag of a task.
#[derive(Copy, Clone, Debug, PartialEq, Eq, Structural)]
pub enum TaskState {
    Ready,
    Running,
    Terminated,
}

/// Per-task saved state: the registers the task resumes from (its stack
/// pointer and return address among them), its scheduling priority, its
/// liveness tag, its unique identifier, and — when user/kernel separation
/// is enabled — the root of its dedicated translation table.
#[derive(Copy, Clone, Debug)]
pub struct TaskContext {
    pub regs: ExceptionContext,
    pub priority: u32,
    pub state: TaskState,
    pub id: u64,
    pub user_mode: bool,
    pub address_space: Option<usize>,
}

impl TaskContext {
    /// A fresh ready task that will start at `entry_point` on the stack
    /// ending at `stack_top`, with every general-purpose register clear.
    /// The scheduler assigns the identifier when the task is added.
    pub fn new(entry_point: u64, stack_top: u64, priority: u32, user_mode: bool) -> (r: Self)
        ensures
            r.regs.elr_el1 == entry_point,
            r.regs.sp_el0 == stack_top,
            r.regs.esr_el1 == 0,
            r.regs.far_el1 == 0,
            forall|i: int| 0 <= i < 31 ==> r.regs.spec_x(i) == 0,
            r.priority == priority,
            r.state is Ready,
            r.id == 0,
            r.user_mode == user_mode,
            r.address_space is None,
    {
        TaskContext {
            regs: ExceptionContext {
                gpr: crate::interupt::GPR { x: [0u64; 31] },
                sp_el0: stack_top,
                elr_el1: entry_point,
                esr_el1: 0,
                far_el1: 0,
            },
            priority,
            state: TaskState::Ready,
            id: 0,
            user_mode,
            address_space: None,
        }
    }
}

/// Whether a task can be picked for priority `p`: it is ready and has
/// exactly that priority.
pub open spec fn spec_eligible(t: TaskContext, p: u32) -> bool {
    t.state is Ready && t.priority == p
}

/// The cyclic round-robin scan: starting at `pos`, the first position
/// within `steps` steps (wrapping at the end of the list) holding a ready
/// task of priority `p`.
pub open spec fn spec_scan(tasks: Seq<TaskContext>, pos: int, steps: nat, p: u32) -> Option<int>
    decreases steps,
{
    if steps == 0 {
        None
    } else if spec_eligible(tasks[pos], p) {
        Some(pos)
    } else {
        spec_scan(
            tasks,
            if pos + 1 == tasks.len() { 0 } else { pos + 1 },
            (steps - 1) as nat,
            p,
        )
    }
}

/// Whether any task is ready.
pub open spec fn spec_has_ready(tasks: Seq<TaskContext>) -> bool {
    exists|i: int| 0 <= i < tasks.len() && tasks[i].state is Ready
}

/// Whether `p` is the highest priority any ready task holds.
pub open spec fn spec_is_max_ready_priority(tasks: Seq<TaskContext>, p: u32) -> bool {
    &&& exists|i: int| 0 <= i < tasks.len() && tasks[i].state is Ready && tasks[i].priority == p
    &&& forall|i: int| 0 <= i < tasks.len() && tasks[i].state is Ready
        ==> tasks[i].priority <= p
}

/// The task list after the running task's live registers (already
/// captured in the trap's context) are copied back into its own storage
/// and it rejoins the ready set; with no running task nothing changes.
pub open spec fn spec_after_save(
    tasks: Seq<TaskContext>,
    current: Option<int>,
    ctx: ExceptionContext,
) -> Seq<TaskContext> {
    match current {
        Some(c) => if 0 <= c < tasks.len() && tasks[c].state is Running {
            tasks.update(
                c,
                TaskContext {
                    regs: ctx,
                    priority: tasks[c].priority,
                    state: TaskState::Ready,
                    id: tasks[c].id,
                    user_mode: tasks[c].user_mode,
                    address_space: tasks[c].address_space,
                },
            )
        } else {
            tasks
        },
        None => tasks,
    }
}

/// Where the round-robin scan starts: just after the task that ran last,
/// wrapping at the end, or at the front when nothing ran yet.
pub open spec fn spec_scan_start(tasks_len: int, current: Option<int>) -> int {
    match current {
        Some(c) => if c + 1 == tasks_len { 0 } else { c + 1 },
        None => 0,
    }
}

/// The scan finds a slot whenever an eligible slot exists within reach.
proof fn lemma_scan_finds(tasks: Seq<TaskContext>, pos: int, steps: nat, p: u32, i: int)
    requires
        0 <= pos < tasks.len(),
        0 <= i < tasks.len(),
        spec_eligible(tasks[i], p),
        steps >= (if i >= pos { i - pos } else { i + tasks.len() - pos }) + 1,
    ensures
        spec_scan(tasks, pos, steps, p) is Some,
    decreases steps,
{
    if !spec_eligible(tasks[pos], p) {
        let pos2 = if pos + 1 == tasks.len() { 0 } else { pos + 1 };
        lemma_scan_finds(tasks, pos2, (steps - 1) as nat, p, i);
    }
}

/// Everything one scheduling decision guarantees, relating the scheduler
/// and trap context before the call (`pre`, `ctx0`) to those after it
/// (`post`, `ctx1`) and to the returned identifier: with no ready task
/// nothing moves; otherwise the first ready task of highest priority in
/// cyclic order after the previous running task is made running, its saved
/// registers land in the trap context, and a terminated task neither
/// changes state nor is selected.
pub open spec fn spec_schedule_post(
    pre: Scheduler,
    post: Scheduler,
    ctx0: ExceptionContext,
    ctx1: ExceptionContext,
    r: Option<u64>,
) -> bool {
    let tasks1 = spec_after_save(pre.spec_tasks(), pre.spec_current(), ctx0);
    &&& post.spec_next_id() == pre.spec_next_id()
    &&& post.spec_tasks().len() == pre.spec_tasks().len()
    &&& match r {
        None => {
            &&& !spec_has_ready(tasks1)
            &&& post.spec_tasks() == tasks1
            &&& post.spec_current() == pre.spec_current()
            &&& ctx1 == ctx0
        },
        Some(id) => exists|sel: int|
            {
                &&& 0 <= sel < tasks1.len()
                &&& (#[trigger] tasks1[sel]).state is Ready
                &&& spec_is_max_ready_priority(tasks1, tasks1[sel].priority)
                &&& spec_scan(
                    tasks1,
                    spec_scan_start(tasks1.len() as int, pre.spec_current()),
                    tasks1.len() as nat,
                    tasks1[sel].priority,
                ) == Some(sel)
                &&& id == tasks1[sel].id
                &&& post.spec_tasks() == tasks1.update(
                    sel,
                    TaskContext {
                        regs: tasks1[sel].regs,
                        priority: tasks1[sel].priority,
                        state: TaskState::Running,
                        id: tasks1[sel].id,
                        user_mode: tasks1[sel].user_mode,
                        address_space: tasks1[sel].address_space,
                    },
                )
                &&& post.spec_current() == Some(sel)
                &&& ctx1 == tasks1[sel].regs
            },
    }
    &&& forall|i: int|
        0 <= i < pre.spec_tasks().len()
            && (#[trigger] pre.spec_tasks()[i]).state is Terminated
            ==> post.spec_tasks()[i].state is Terminated
                && (r matches Some(id) ==> id != pre.spec_tasks()[i].id)
}

/// The ready set of tasks and the bookkeeping of who ran last.
pub struct Scheduler {
    tasks: Vec<TaskContext>,
    current: Option<usize>,
    next_id: u64,
}

impl Scheduler {
    /// The task list, in the order tasks were added.
    pub closed spec fn spec_tasks(self) -> Seq<TaskContext> {
        self.tasks@
    }

    /// Position of the task that is running (or ran last), if any.
    pub closed spec fn spec_current(self) -> Option<int> {
        match self.current {
            Some(c) => Some(c as int),
            None => None,
        }
    }

    /// The identifier the next added task will receive.
    pub closed spec fn spec_next_id(self) -> u64 {
        self.next_id
    }

    /// The scheduler's invariant: the current position is in bounds, only
    /// the current task can be running, identifiers are unique and below
    /// the next one to hand out.
    pub open spec fn wf(self) -> bool {
        &&& match self.spec_current() {
            Some(c) => 0 <= c < self.spec_tasks().len(),
            None => true,
        }
        &&& forall|i: int| 0 <= i < self.spec_tasks().len()
            && (#[trigger] self.spec_tasks()[i]).state is Running
                ==> self.spec_current() == Some(i)
        &&& forall|i: int| 0 <= i < self.spec_tasks().len()
            ==> (#[trigger] self.spec_tasks()[i]).id < self.spec_next_id()
        &&& forall|i: int, j: int| 0 <= i < j < self.spec_tasks().len()
                ==> (#[trigger] self.spec_tasks()[i]).id != (
                #[trigger] self.spec_tasks()[j]).id
    }

    /// An empty scheduler: no tasks, nothing ran yet.
    pub fn new() -> (r: Self)
        ensures
            r.wf(),
            r.spec_tasks() =~= Seq::<TaskContext>::empty(),
            r.spec_current() is None,
            r.spec_next_id() == 1,
    {
        Scheduler { tasks: Vec::new(), current: None, next_id: 1 }
    }

    /// Inserts a new ready task, assigning it the next free identifier,
    /// and returns that identifier. Insertion itself always succeeds.
    pub fn add_task(&mut self, task: TaskContext) -> (r: Result<u64, ()>)
        requires
            old(self).wf(),
            old(self).spec_next_id() < u64::MAX,
        ensures
            final(self).wf(),
            r matches Ok(id) && id == old(self).spec_next_id(),
            final(self).spec_tasks() == old(self).spec_tasks().push(
                (TaskContext {
                    regs: task.regs,
                    priority: task.priority,
                    state: TaskState::Ready,
                    id: old(self).spec_next_id(),
                    user_mode: task.user_mode,
                    address_space: task.address_space,
                }),
            ),
            final(self).spec_current() == old(self).spec_current(),
            final(self).spec_next_id() == old(self).spec_next_id() + 1,
    {
        let id = self.next_id;
        let inserted = TaskContext {
            regs: task.regs,
            priority: task.priority,
            state: TaskState::Ready,
            id,
            user_mode: task.user_mode,
            address_space: task.address_space,
        };
        self.tasks.push(inserted);
        self.next_id = self.next_id + 1;
        Ok(id)
    }

    /// Marks the task carrying `id` terminated; it is never selected
    /// again. Returns whether such a task existed. Everything else —
    /// every other task, the round-robin position, the identifier
    /// counter — stays as it was.
    #[verifier::loop_isolation(false)]
    pub fn terminate_task(&mut self, id: u64) -> (found: bool)
        requires
            old(self).wf(),
        ensures
            final(self).wf(),
            final(self).spec_current() == old(self).spec_current(),
            final(self).spec_next_id() == old(self).spec_next_id(),
            final(self).spec_tasks().len() == old(self).spec_tasks().len(),
            forall|i: int| 0 <= i < old(self).spec_tasks().len()
                ==> #[trigger] final(self).spec_tasks()[i] == (if old(self).spec_tasks()[i].id
                    == id {
                    TaskContext {
                        regs: old(self).spec_tasks()[i].regs,
                        priority: old(self).spec_tasks()[i].priority,
                        state: TaskState::Terminated,
                        id: old(self).spec_tasks()[i].id,
                        user_mode: old(self).spec_tasks()[i].user_mode,
                        address_space: old(self).spec_tasks()[i].address_space,
                    }
                } else {
                    old(self).spec_tasks()[i]
                }),
            found == exists|i: int|
                0 <= i < old(self).spec_tasks().len() && (#[trigger] old(
                    self,
                ).spec_tasks()[i]).id == id,
    {
        let n = self.tasks.len();
        let mut i: usize = 0;
        let mut found: bool = false;
        while i < n
            invariant
                old(self).wf(),
                n == self.spec_tasks().len(),
                n == old(self).spec_tasks().len(),
                i <= n,
                self.spec_current() == old(self).spec_current(),
                self.spec_next_id() == old(self).spec_next_id(),
                match self.current {
                    Some(c) => 0 <= c < n,
                    None => true,
                },
                forall|k: int| 0 <= k < n
                    ==> #[trigger] self.spec_tasks()[k] == (if k < i && old(
                        self,
                    ).spec_tasks()[k].id == id {
                        TaskContext {
                            regs: old(self).spec_tasks()[k].regs,
                            priority: old(self).spec_tasks()[k].priority,
                            state: TaskState::Terminated,
                            id: old(self).spec_tasks()[k].id,
                            user_mode: old(self).spec_tasks()[k].user_mode,
                            address_space: old(self).spec_tasks()[k].address_space,
                        }
                    } else {
                        old(self).spec_tasks()[k]
                    }),
                found == exists|k: int|
                    0 <= k < i && (#[trigger] old(self).spec_tasks()[k]).id == id,
            decreases n - i,
        {
            if self.tasks[i].id == id {
                let mut t = self.tasks[i];
                t.state = TaskState::Terminated;
                self.tasks[i] = t;
                found = true;
            }
            i = i + 1;
        }
        proof {
            assert forall|k: int| 0 <= k < n
                && (#[trigger] self.spec_tasks()[k]).state is Running implies self.spec_current()
                == Some(k) by {
                assert(self.spec_tasks()[k] == old(self).spec_tasks()[k]);
            }
        }
        found
    }

    /// A borrow of the presently running task's context, for syscall
    /// handlers; the storage is reused across switches, so the reference
    /// must not outlive the current trap.
    pub fn get_current_task_context(&self) -> (r: &TaskContext)
        requires
            self.wf(),
            self.spec_current() is Some,
        ensures
            r == self.spec_tasks()[self.spec_current().unwrap()],
    {
        match self.current {
            Some(c) => &self.tasks[c],
            None => unreached(),
        }
    }

    /// One scheduling decision, invoked from the IRQ path or an explicit
    /// yield. Stashes the running task's live registers (as captured in
    /// `context`) back into its storage and marks it ready again; then
    /// picks, among the ready tasks of highest priority, the first one
    /// after the previous running task in cyclic order — round-robin
    /// among equals — marks it running, and restores its saved registers
    /// into `context` for the trap exit. Returns the chosen task's
    /// identifier. With no ready task at all it returns nothing and
    /// leaves every context exactly as it was; a terminated task stays
    /// terminated and is never the one returned.
    #[verifier::loop_isolation(false)]
    pub fn schedule(&mut self, context: &mut ExceptionContext) -> (r: Option<u64>)
        requires
            old(self).wf(),
        ensures
            final(self).wf(),
            spec_schedule_post(*old(self), *final(self), *old(context), *final(context), r),
    {
        let ghost tasks0 = self.spec_tasks();
        let ghost cur0 = self.spec_current();
        match self.current {
            Some(c) => {
                let t = self.tasks[c];
                if matches!(t.state, TaskState::Running) {
                    let saved = TaskContext {
                        regs: *context,
                        priority: t.priority,
                        state: TaskState::Ready,
                        id: t.id,
                        user_mode: t.user_mode,
                        address_space: t.address_space,
                    };
                    self.tasks[c] = saved;
                }
            },
            None => {},
        }
        let ghost tasks1 = self.spec_tasks();
        proof {
            assert(tasks1 == spec_after_save(tasks0, cur0, *old(context)));
            assert(forall|i: int| 0 <= i < tasks1.len()
                ==> !((#[trigger] tasks1[i]).state is Running));
            assert(forall|i: int| 0 <= i < tasks1.len() ==> (#[trigger] tasks1[i]).id
                == tasks0[i].id);
            assert(forall|i: int| 0 <= i < tasks1.len()
                && (#[trigger] tasks0[i]).state is Terminated
                ==> tasks1[i].state is Terminated);
        }
        let n = self.tasks.len();
        let mut i: usize = 0;
        let mut best: Option<u32> = None;
        while i < n
            invariant
                n == self.spec_tasks().len(),
                self.spec_tasks() == tasks1,
                i <= n,
                match best {
                    None => forall|k: int| 0 <= k < i
                        ==> !((#[trigger] tasks1[k]).state is Ready),
                    Some(p) => {
                        &&& exists|k: int|
                            0 <= k < i && (#[trigger] tasks1[k]).state is Ready
                                && tasks1[k].priority == p
                        &&& forall|k: int| 0 <= k < i && (#[trigger] tasks1[k]).state is Ready
                            ==> tasks1[k].priority <= p
                    },
                },
            decreases n - i,
        {
            let t = self.tasks[i];
            if matches!(t.state, TaskState::Ready) {
                best = match best {
                    None => Some(t.priority),
                    Some(p) => if t.priority > p {
                        Some(t.priority)
                    } else {
                        Some(p)
                    },
                };
            }
            i = i + 1;
        }
        let p = match best {
            None => {
                proof {
                    assert(!spec_has_ready(tasks1));
                }
                return None;
            },
            Some(p) => p,
        };
        proof {
            assert(spec_is_max_ready_priority(tasks1, p));
        }
        let start: usize = match self.current {
            Some(c) => if c + 1 == n {
                0
            } else {
                c + 1
            },
            None => 0,
        };
        proof {
            assert(start as int == spec_scan_start(n as int, cur0));
        }
        let mut pos: usize = start;
        let mut k: usize = 0;
        while k < n
            invariant
                n == self.spec_tasks().len(),
                self.spec_tasks() == tasks1,
                self.spec_current() == cur0,
                self.spec_next_id() == old(self).spec_next_id(),
                n > 0,
                k <= n,
                0 <= pos < n,
                start < n,
                spec_scan(tasks1, start as int, n as nat, p) == spec_scan(
                    tasks1,
                    pos as int,
                    (n - k) as nat,
                    p,
                ),
            decreases n - k,
        {
            let t = self.tasks[pos];
            if matches!(t.state, TaskState::Ready) && t.priority == p {
                let chosen = TaskContext {
                    regs: t.regs,
                    priority: t.priority,
                    state: TaskState::Running,
                    id: t.id,
                    user_mode: t.user_mode,
                    address_space: t.address_space,
                };
                self.tasks[pos] = chosen;
                self.current = Some(pos);
                *context = t.regs;
                proof {
                    assert(spec_scan(tasks1, start as int, n as nat, p) == Some(pos as int));
                    assert(self.spec_tasks() == tasks1.update(pos as int, chosen));
                }
                return Some(t.id);
            }
            pos = if pos + 1 == n {
                0
            } else {
                pos + 1
            };
            k = k + 1;
        }
        proof {
            let witness = choose|j: int|
                0 <= j < tasks1.len() && tasks1[j].state is Ready && tasks1[j].priority == p;
            lemma_scan_finds(tasks1, start as int, n as nat, p, witness);
            assert(false);
        }
        unreached()
    }
}

} // verus!
