use uranos_core::interupt::{current_elx_irq, end_scheduling, DispatcherState, ExceptionContext, GPR};
use uranos_core::scheduler::{Scheduler, TaskContext, TaskState};

fn empty_context() -> ExceptionContext {
    ExceptionContext { gpr: GPR { x: [0; 31] }, sp_el0: 0, elr_el1: 0, esr_el1: 0, far_el1: 0 }
}

fn task(entry: u64, priority: u32) -> TaskContext {
    TaskContext::new(entry, 0x8000, priority, true)
}

#[test]
fn new_task_context_starts_ready_at_its_entry_point() {
    let t = TaskContext::new(0x1000, 0x9000, 7, false);
    assert_eq!(t.regs.elr_el1, 0x1000);
    assert_eq!(t.regs.sp_el0, 0x9000);
    assert_eq!(t.priority, 7);
    assert!(matches!(t.state, TaskState::Ready));
    assert!(t.address_space.is_none());
}

#[test]
fn equal_top_priorities_alternate_and_a_lower_one_starves() {
    let mut s = Scheduler::new();
    let mut ctx = empty_context();
    let a = s.add_task(task(0xA000, 3)).unwrap();
    let b = s.add_task(task(0xB000, 1)).unwrap();
    let c = s.add_task(task(0xC000, 3)).unwrap();
    let mut picks = Vec::new();
    for _ in 0..6 {
        let id = s.schedule(&mut ctx).expect("a ready task exists");
        assert_ne!(id, b, "the low-priority task must never run while the others are ready");
        picks.push(id);
    }
    assert_eq!(picks, vec![a, c, a, c, a, c]);
}

#[test]
fn schedule_restores_the_chosen_tasks_registers() {
    let mut s = Scheduler::new();
    let mut ctx = empty_context();
    s.add_task(task(0xA000, 3)).unwrap();
    s.schedule(&mut ctx).unwrap();
    assert_eq!(ctx.elr_el1, 0xA000);
    assert_eq!(ctx.sp_el0, 0x8000);
}

#[test]
fn the_running_tasks_registers_are_saved_on_a_switch() {
    let mut s = Scheduler::new();
    let mut ctx = empty_context();
    let a = s.add_task(task(0xA000, 2)).unwrap();
    let b = s.add_task(task(0xB000, 2)).unwrap();
    assert_eq!(s.schedule(&mut ctx).unwrap(), a);
    // The task ran for a while; its program counter moved.
    ctx.elr_el1 = 0xA444;
    assert_eq!(s.schedule(&mut ctx).unwrap(), b);
    assert_eq!(ctx.elr_el1, 0xB000);
    // Coming back around restores where the first task left off.
    assert_eq!(s.schedule(&mut ctx).unwrap(), a);
    assert_eq!(ctx.elr_el1, 0xA444);
}

#[test]
fn a_terminated_task_is_never_selected_again() {
    let mut s = Scheduler::new();
    let mut ctx = empty_context();
    let a = s.add_task(task(0xA000, 3)).unwrap();
    let c = s.add_task(task(0xC000, 3)).unwrap();
    assert!(s.terminate_task(c));
    for _ in 0..4 {
        assert_eq!(s.schedule(&mut ctx), Some(a));
    }
    assert!(!s.terminate_task(999), "an unknown id terminates nothing");
}

#[test]
fn scheduling_with_no_ready_task_is_a_well_defined_idle() {
    let mut s = Scheduler::new();
    let mut ctx = empty_context();
    assert_eq!(s.schedule(&mut ctx), None);
    let a = s.add_task(task(0xA000, 1)).unwrap();
    assert!(s.terminate_task(a));
    assert_eq!(s.schedule(&mut ctx), None);
    assert_eq!(ctx.elr_el1, 0, "an idle decision leaves the context untouched");
}

#[test]
fn get_current_task_context_names_the_running_task() {
    let mut s = Scheduler::new();
    let mut ctx = empty_context();
    let a = s.add_task(task(0xA000, 1)).unwrap();
    s.schedule(&mut ctx).unwrap();
    let t = s.get_current_task_context();
    assert_eq!(t.id, a);
    assert!(matches!(t.state, TaskState::Running));
}

#[test]
fn the_irq_path_rearms_the_timer_and_schedules_once() {
    let mut guard = DispatcherState::new();
    let mut s = Scheduler::new();
    let mut ctx = empty_context();
    let a = s.add_task(task(0xA000, 1)).unwrap();
    let action = current_elx_irq(&mut guard, &mut s, &mut ctx, 62_500_000);
    assert_eq!(action.rearm_ticks, 62_500_000);
    assert!(action.enable_timer);
    assert!(action.enable_irqs);
    assert_eq!(action.scheduled, Some(a));
    assert!(!guard.is_scheduling);
}

#[test]
fn the_reentrancy_guard_keeps_schedule_from_recursing() {
    let mut guard = DispatcherState { is_scheduling: true };
    let mut s = Scheduler::new();
    let mut ctx = empty_context();
    s.add_task(task(0xA000, 1)).unwrap();
    let action = current_elx_irq(&mut guard, &mut s, &mut ctx, 1000);
    assert_eq!(action.scheduled, None, "a pass already in progress must not recurse");
    assert!(guard.is_scheduling, "the outer pass still owns the flag");
    end_scheduling(&mut guard);
    assert!(!guard.is_scheduling);
}
