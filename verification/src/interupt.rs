//! The exception/interrupt dispatch pipeline: the saved trap context, the
//! decoding of a synchronous trap into a syscall, a task fault or a fatal
//! halt, and the guarded IRQ path that re-arms the timer and invokes the
//! scheduler exactly once.

use vstd::prelude::*;
use crate::scheduler::Scheduler;
use crate::userspace::{spec_syscall_from_number, Syscalls};

verus! {

/// The general-purpose registers x0 through x30 saved on trap entry.
#[derive(Copy, Clone, Debug)]
pub struct GPR {
    pub x: [u64; 31],
}

/// Snapshot of the CPU state captured by the trap entry sequence: all
/// general-purpose registers plus the saved user stack pointer, the
/// exception link register (return address), the exception syndrome and
/// the fault address. Handlers that alter it alter how the trap resumes.
#[derive(Copy, Clone, Debug)]
pub struct ExceptionContext {
    pub gpr: GPR,
    pub sp_el0: u64,
    pub elr_el1: u64,
    pub esr_el1: u64,
    pub far_el1: u64,
}

impl ExceptionContext {
    /// Register `x[i]` of the saved context.
    pub open spec fn spec_x(self, i: int) -> u64 {
        self.gpr.x@[i]
    }
}

/// The exception syndrome value a supervisor call from user level
/// carries: the one synchronous cause the dispatcher recognizes.
pub const SYSCALL_FROM_EL0_ESR: u64 = 0x5600_0000;

/// Register slot the syscall number travels in.
pub const SYSCALL_NUMBER_REGISTER: usize = 8;

/// What a synchronous trap from user level turns into: a recognized
/// syscall to service; a task fault — the syscall number was unknown, the
/// trap returns to the task with the fault reported against it and the
/// kernel keeps running; or a fatal halt carrying the full diagnostics
/// (syndrome, return address, fault address, user stack pointer) — the
/// cause itself was unrecognized and the dispatcher has no recovery
/// policy for it.
#[derive(Copy, Clone, Debug, PartialEq, Eq, Structural)]
pub enum SyncTrapOutcome {
    Syscall(Syscalls),
    UnknownSyscall(u64),
    Halt { esr: u64, elr: u64, far: u64, sp: u64 },
}

/// Decodes a synchronous trap from user level. The one recognized cause
/// is the supervisor-call syndrome; under it the syscall number is read
/// from its designated register and either dispatched or reported as a
/// task fault — never a kernel halt. Any other cause is fatal.
pub fn lower_aarch64_synchronous(context: &ExceptionContext) -> (r: SyncTrapOutcome)
    ensures
        context.esr_el1 == SYSCALL_FROM_EL0_ESR ==> r == (match spec_syscall_from_number(
            context.spec_x(SYSCALL_NUMBER_REGISTER as int),
        ) {
            Some(s) => SyncTrapOutcome::Syscall(s),
            None => SyncTrapOutcome::UnknownSyscall(
                context.spec_x(SYSCALL_NUMBER_REGISTER as int),
            ),
        }),
        context.esr_el1 != SYSCALL_FROM_EL0_ESR ==> r == (SyncTrapOutcome::Halt {
            esr: context.esr_el1,
            elr: context.elr_el1,
            far: context.far_el1,
            sp: context.sp_el0,
        }),
        !(r is Halt) <==> context.esr_el1 == SYSCALL_FROM_EL0_ESR,
{
    if context.esr_el1 == SYSCALL_FROM_EL0_ESR {
        let number = context.gpr.x[SYSCALL_NUMBER_REGISTER];
        match Syscalls::from_u64(number) {
            Some(s) => SyncTrapOutcome::Syscall(s),
            None => SyncTrapOutcome::UnknownSyscall(number),
        }
    } else {
        SyncTrapOutcome::Halt {
            esr: context.esr_el1,
            elr: context.elr_el1,
            far: context.far_el1,
            sp: context.sp_el0,
        }
    }
}

/// What the bytes a print syscall points at decode to.
pub uninterp spec fn utf8_decoded(bytes: Seq<u8>) -> Option<Seq<char>>;

/// Relies on core::str::from_utf8: whether a byte slice is accepted and
/// what text it carries depend on the bytes alone.
#[verifier::external_body]
fn utf8_to_string(bytes: &Vec<u8>) -> (r: Option<String>)
    ensures
        match r {
            Some(s) => utf8_decoded(bytes@) == Some(s@),
            None => utf8_decoded(bytes@) is None,
        },
{
    match core::str::from_utf8(bytes.as_slice()) {
        Ok(s) => Some(s.to_string()),
        Err(_) => None,
    }
}

/// How a print syscall ends: the decoded text to put on the console, or
/// a syscall fault reported to the task because its buffer was not valid
/// text.
#[derive(Debug, PartialEq, Eq)]
pub enum PrintSyscallOutcome {
    Text(String),
    NotUtf8,
}

/// The print syscall's decision on an already-decoded buffer: text goes
/// to the console, an undecodable buffer becomes a fault report for the
/// task.
pub fn print_decision(decoded: Option<String>) -> (r: PrintSyscallOutcome)
    ensures
        match decoded {
            Some(s) => r == PrintSyscallOutcome::Text(s),
            None => r == PrintSyscallOutcome::NotUtf8,
        },
{
    match decoded {
        Some(s) => PrintSyscallOutcome::Text(s),
        None => PrintSyscallOutcome::NotUtf8,
    }
}

/// Services a print syscall on the bytes the task handed over: valid
/// text is passed on for the console, anything else is reported back as
/// a syscall fault without harming the kernel.
pub fn handle_print_syscall(bytes: &Vec<u8>) -> (r: PrintSyscallOutcome)
    ensures
        match r {
            PrintSyscallOutcome::Text(s) => utf8_decoded(bytes@) == Some(s@),
            PrintSyscallOutcome::NotUtf8 => utf8_decoded(bytes@) is None,
        },
{
    print_decision(utf8_to_string(bytes))
}

/// Priority a child task is spawned with: the parent's priority lowered
/// by the requested difference, but never below one.
pub fn child_task_priority(current_priority: u32, priority_difference: u32) -> (r: u32)
    ensures
        r == if current_priority > priority_difference {
            (current_priority - priority_difference) as u32
        } else {
            1u32
        },
{
    if current_priority > priority_difference {
        current_priority - priority_difference
    } else {
        1
    }
}

/// What a new-task syscall asks the scheduler to create, decoded from
/// the trap context.
#[derive(Copy, Clone, Debug, PartialEq, Eq, Structural)]
pub struct NewTaskRequest {
    pub entry_point: u64,
    pub priority: u32,
    pub user_mode: bool,
}

/// Decodes a new-task syscall: the entry point travels in `x0`, the
/// priority difference in the low half of `x1`; the child runs in user
/// mode at the parent's priority lowered by the difference (the spawning
/// path runs at base priority one, so never below one).
pub fn handle_new_task_syscall(context: &ExceptionContext) -> (r: NewTaskRequest)
    ensures
        r.entry_point == context.spec_x(0),
        r.priority == ({
            let diff = (context.spec_x(1) & 0xFFFF_FFFF) as u32;
            if 1u32 > diff {
                (1u32 - diff) as u32
            } else {
                1u32
            }
        }),
        r.user_mode,
{
    let entry_point = context.gpr.x[0];
    let priority_difference = (context.gpr.x[1] & 0xFFFF_FFFF) as u32;
    let priority = child_task_priority(1, priority_difference);
    NewTaskRequest { entry_point, priority, user_mode: true }
}

/// Diagnostics of a trap no handler claims: the vector slot it arrived
/// through and the privileged state captured at entry. Reporting it is
/// terminal — the runtime prints the report and enters the fault state.
#[derive(Copy, Clone, Debug, PartialEq, Eq, Structural)]
pub struct UnhandledInterruptReport {
    pub id: usize,
    pub esr: u64,
    pub elr: u64,
    pub far: u64,
    pub sp: u64,
}

/// The catch-all handler for vector slots nothing claims: collects the
/// diagnostics to report and clears the syndrome register in the saved
/// context; the runtime prints the report, keeps interrupts masked and
/// never returns to the interrupted code.
pub fn default_interupt_handler(context: &mut ExceptionContext, id: usize) -> (r:
    UnhandledInterruptReport)
    ensures
        r == (UnhandledInterruptReport {
            id,
            esr: old(context).esr_el1,
            elr: old(context).elr_el1,
            far: old(context).far_el1,
            sp: old(context).sp_el0,
        }),
        *final(context) == (ExceptionContext { esr_el1: 0, ..*old(context) }),
{
    let r = UnhandledInterruptReport {
        id,
        esr: context.esr_el1,
        elr: context.elr_el1,
        far: context.far_el1,
        sp: context.sp_el0,
    };
    context.esr_el1 = 0;
    r
}

/// The dispatcher's per-core state: the re-entrancy flag guarding the
/// scheduler, set for exactly the span of one `schedule` invocation.
#[derive(Copy, Clone, Debug, PartialEq, Eq, Structural)]
pub struct DispatcherState {
    pub is_scheduling: bool,
}

impl DispatcherState {
    /// The boot state: nothing is scheduling yet.
    pub fn new() -> (r: Self)
        ensures
            !r.is_scheduling,
    {
        DispatcherState { is_scheduling: false }
    }
}

/// Clears the scheduling guard once a scheduling pass has unwound.
pub fn end_scheduling(guard: &mut DispatcherState)
    ensures
        !final(guard).is_scheduling,
{
    guard.is_scheduling = false;
}

/// The hardware work one timer IRQ asks of the runtime: re-arm the timer
/// for that many ticks, re-enable it, unmask interrupt delivery, and —
/// when the guard allowed a scheduling pass — resume the task the
/// scheduler picked.
#[derive(Copy, Clone, Debug, PartialEq, Eq, Structural)]
pub struct IrqAction {
    pub rearm_ticks: u32,
    pub enable_timer: bool,
    pub enable_irqs: bool,
    pub scheduled: Option<u64>,
}

/// The timer-IRQ path: always re-arms the firing timer for the next tick
/// and re-enables interrupt delivery; then, guarded by the re-entrancy
/// flag, invokes the scheduler exactly once. If a scheduling pass is
/// already in progress the scheduler and the trap context are left
/// untouched; either way the guard is clear once this returns.
pub fn current_elx_irq(
    guard: &mut DispatcherState,
    sched: &mut Scheduler,
    context: &mut ExceptionContext,
    timer_frequency: u32,
) -> (r: IrqAction)
    requires
        old(sched).wf(),
    ensures
        final(sched).wf(),
        r.rearm_ticks == timer_frequency,
        r.enable_timer,
        r.enable_irqs,
        old(guard).is_scheduling ==> {
            &&& *final(guard) == *old(guard)
            &&& *final(sched) == *old(sched)
            &&& *final(context) == *old(context)
            &&& r.scheduled is None
        },
        !old(guard).is_scheduling ==> {
            &&& !final(guard).is_scheduling
            &&& crate::scheduler::spec_schedule_post(
                *old(sched),
                *final(sched),
                *old(context),
                *final(context),
                r.scheduled,
            )
        },
{
    if guard.is_scheduling {
        return IrqAction {
            rearm_ticks: timer_frequency,
            enable_timer: true,
            enable_irqs: true,
            scheduled: None,
        };
    }
    guard.is_scheduling = true;
    let scheduled = sched.schedule(context);
    guard.is_scheduling = false;
    IrqAction { rearm_ticks: timer_frequency, enable_timer: true, enable_irqs: true, scheduled }
}

} // verus!
