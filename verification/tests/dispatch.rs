use uranos_core::interupt::{
    child_task_priority, default_interupt_handler, handle_new_task_syscall, handle_print_syscall,
    lower_aarch64_synchronous, ExceptionContext, PrintSyscallOutcome, SyncTrapOutcome, GPR,
    SYSCALL_FROM_EL0_ESR,
};
use uranos_core::rpi3_interrupt_controller::{IRQType, Rpi3InterruptController};
use uranos_core::syscall::{
    async_write_result, resolve_async_write_fd, AsyncFileDescriptor, AsyncReturnedValues,
    AsyncSyscalls, AsyncWriteSyscallData, CircullarBuffer, WriteResolution, ONLY_MSB_OF_USIZE,
    READ_ON_CLOSED_FILE,
};
use uranos_core::userspace::Syscalls;

fn trap_context(esr: u64, x8: u64) -> ExceptionContext {
    let mut gpr = GPR { x: [0; 31] };
    gpr.x[8] = x8;
    ExceptionContext { gpr, sp_el0: 0x7000, elr_el1: 0x1234, esr_el1: esr, far_el1: 0x99 }
}

#[test]
fn a_recognized_syscall_number_is_dispatched() {
    let ctx = trap_context(SYSCALL_FROM_EL0_ESR, 0);
    assert_eq!(lower_aarch64_synchronous(&ctx), SyncTrapOutcome::Syscall(Syscalls::Print));
    let ctx = trap_context(SYSCALL_FROM_EL0_ESR, 5);
    assert_eq!(lower_aarch64_synchronous(&ctx), SyncTrapOutcome::Syscall(Syscalls::Yield));
}

#[test]
fn an_unknown_syscall_number_faults_the_task_but_not_the_kernel() {
    let ctx = trap_context(SYSCALL_FROM_EL0_ESR, 99);
    match lower_aarch64_synchronous(&ctx) {
        SyncTrapOutcome::UnknownSyscall(n) => assert_eq!(n, 99),
        other => panic!("an unknown number must fault the task only, got {other:?}"),
    }
}

#[test]
fn an_unrecognized_cause_halts_with_full_diagnostics() {
    let ctx = trap_context(0xDEAD_0000, 0);
    match lower_aarch64_synchronous(&ctx) {
        SyncTrapOutcome::Halt { esr, elr, far, sp } => {
            assert_eq!(esr, 0xDEAD_0000);
            assert_eq!(elr, 0x1234);
            assert_eq!(far, 0x99);
            assert_eq!(sp, 0x7000);
        },
        other => panic!("an unknown cause must halt, got {other:?}"),
    }
}

#[test]
fn syscall_numbering_round_trips() {
    for s in [
        Syscalls::Print,
        Syscalls::NewTask,
        Syscalls::TerminateTask,
        Syscalls::GetTime,
        Syscalls::GetFrequency,
        Syscalls::Yield,
    ] {
        assert_eq!(Syscalls::from_u64(s.to_u64()), Some(s));
    }
    assert_eq!(Syscalls::from_u64(6), None);
    assert_eq!(Syscalls::from_u64(u64::MAX), None);
}

#[test]
fn print_syscall_accepts_text_and_reports_bad_bytes() {
    match handle_print_syscall(&b"hello kernel".to_vec()) {
        PrintSyscallOutcome::Text(s) => assert_eq!(s, "hello kernel"),
        PrintSyscallOutcome::NotUtf8 => panic!("valid text must print"),
    }
    match handle_print_syscall(&vec![0xFF, 0xFE, 0x41]) {
        PrintSyscallOutcome::NotUtf8 => {},
        PrintSyscallOutcome::Text(s) => panic!("invalid bytes decoded to {s:?}"),
    }
}

#[test]
fn child_priority_is_the_parents_lowered_but_at_least_one() {
    assert_eq!(child_task_priority(10, 3), 7);
    assert_eq!(child_task_priority(3, 3), 1);
    assert_eq!(child_task_priority(1, 5), 1);
}

#[test]
fn a_new_task_request_is_decoded_from_the_designated_registers() {
    let mut ctx = trap_context(SYSCALL_FROM_EL0_ESR, 1);
    ctx.gpr.x[0] = 0xAABB_0000;
    ctx.gpr.x[1] = 0;
    let req = handle_new_task_syscall(&ctx);
    assert_eq!(req.entry_point, 0xAABB_0000);
    assert_eq!(req.priority, 1);
    assert!(req.user_mode);
}

#[test]
fn enabling_the_timer_touches_only_the_timer_bit() {
    let base = 0x3F00_B200;
    let mut c = Rpi3InterruptController::new(base);
    let w = c.enable_IRQ(IRQType::ARM_TIMER);
    assert_eq!(w.mask, 1);
    assert_eq!(w.address, base + 0x18);
    assert!(c.line_enabled(IRQType::ARM_TIMER));
    assert!(!c.line_enabled(IRQType::ARM_MAILBOX));
    assert!(!c.line_enabled(IRQType::UART));
}

#[test]
fn disabling_the_timer_leaves_the_uart_alone() {
    let base = 0x3F00_B200;
    let mut c = Rpi3InterruptController::new(base);
    c.enable_IRQ(IRQType::ARM_TIMER);
    let w = c.enable_IRQ(IRQType::UART);
    assert_eq!(w.mask, 1 << 25);
    assert_eq!(w.address, base + 0x14);
    let w = c.disable_IRQ(IRQType::ARM_TIMER);
    assert_eq!(w.mask, 1);
    assert_eq!(w.address, base + 0x24);
    assert!(!c.line_enabled(IRQType::ARM_TIMER));
    assert!(c.line_enabled(IRQType::UART), "the UART bit must be untouched");
}

#[test]
fn connecting_a_handler_records_it_without_enabling_the_line() {
    let mut c = Rpi3InterruptController::new(0x3F00_B200);
    assert!(c.connect_irq(IRQType::ARM_MAILBOX, 42).is_ok());
    assert_eq!(c.connected_lines().len(), 1);
    assert_eq!(c.connected_lines()[0], (IRQType::ARM_MAILBOX, 42));
    assert!(!c.line_enabled(IRQType::ARM_MAILBOX));
}

#[test]
fn the_write_record_survives_its_wire_form() {
    let d = AsyncWriteSyscallData { afd: 7, message: b"log line\n".to_vec() };
    let bytes = d.as_bytes();
    assert_eq!(bytes.len(), 16 + 9);
    assert_eq!(bytes[0], 7);
    assert_eq!(bytes[8], 9);
    let back = AsyncWriteSyscallData::from_bytes(&bytes).expect("a produced record decodes");
    assert_eq!(back.afd, 7);
    assert_eq!(back.message, b"log line\n".to_vec());
}

#[test]
fn truncated_wire_records_are_refused() {
    assert!(AsyncWriteSyscallData::from_bytes(&vec![1, 2, 3]).is_none());
    let d = AsyncWriteSyscallData { afd: 1, message: b"abc".to_vec() };
    let mut bytes = d.as_bytes();
    bytes.pop();
    assert!(AsyncWriteSyscallData::from_bytes(&bytes).is_none());
}

#[test]
fn submitting_a_write_queues_one_marshalled_request() {
    let mut ring = CircullarBuffer::new();
    let afd = AsyncFileDescriptor::FileDescriptor(3);
    uranos_core::syscall::write(&afd, b"hello".to_vec(), 11, &mut ring);
    let request = ring.pop().expect("one request must be queued");
    assert_eq!(request.id, 11);
    assert_eq!(request.syscall_type, AsyncSyscalls::WriteFile);
    assert_eq!(request.data_size, 16 + 5);
    let decoded = AsyncWriteSyscallData::from_bytes(&request.data).unwrap();
    assert_eq!(decoded.afd, 3);
    assert_eq!(decoded.message, b"hello".to_vec());
    assert!(ring.pop().is_none());
}

#[test]
fn descriptor_words_round_trip() {
    let fd = AsyncFileDescriptor::FileDescriptor(5);
    assert_eq!(AsyncFileDescriptor::from_word(fd.to_word()), fd);
    let rv = AsyncFileDescriptor::AsyncSyscallReturnValue(9);
    assert_eq!(AsyncFileDescriptor::from_word(rv.to_word()), rv);
}

#[test]
fn resolving_a_write_descriptor_follows_the_returned_values() {
    let mut returned = AsyncReturnedValues::new();
    returned.insert(1, AsyncSyscalls::OpenFile, 4);
    returned.insert(2, AsyncSyscalls::ReadFile, 0);
    returned.insert(3, AsyncSyscalls::OpenFile, ONLY_MSB_OF_USIZE | 7);
    let closed = ONLY_MSB_OF_USIZE | READ_ON_CLOSED_FILE;

    let plain = AsyncFileDescriptor::FileDescriptor(6).to_word();
    assert_eq!(resolve_async_write_fd(plain, &returned), WriteResolution::UseFd(6));

    let opened = AsyncFileDescriptor::AsyncSyscallReturnValue(1).to_word();
    assert_eq!(resolve_async_write_fd(opened, &returned), WriteResolution::UseFd(4));

    let not_open = AsyncFileDescriptor::AsyncSyscallReturnValue(2).to_word();
    assert_eq!(resolve_async_write_fd(not_open, &returned), WriteResolution::Fail(closed));

    let failed_open = AsyncFileDescriptor::AsyncSyscallReturnValue(3).to_word();
    assert_eq!(
        resolve_async_write_fd(failed_open, &returned),
        WriteResolution::Fail(ONLY_MSB_OF_USIZE | 7)
    );

    let unknown = AsyncFileDescriptor::AsyncSyscallReturnValue(8).to_word();
    assert_eq!(resolve_async_write_fd(unknown, &returned), WriteResolution::Fail(closed));
}

#[test]
fn a_write_result_is_folded_into_one_word() {
    assert_eq!(async_write_result(Ok(())), 0);
    assert_eq!(async_write_result(Err(READ_ON_CLOSED_FILE)), ONLY_MSB_OF_USIZE | READ_ON_CLOSED_FILE);
}

#[test]
fn the_catch_all_handler_reports_and_clears_the_syndrome() {
    let mut ctx = trap_context(0xBEEF, 0);
    let report = default_interupt_handler(&mut ctx, 13);
    assert_eq!(report.id, 13);
    assert_eq!(report.esr, 0xBEEF);
    assert_eq!(report.elr, 0x1234);
    assert_eq!(report.far, 0x99);
    assert_eq!(report.sp, 0x7000);
    assert_eq!(ctx.esr_el1, 0);
    assert_eq!(ctx.elr_el1, 0x1234);
}
