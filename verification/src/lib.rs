//! Core subsystems of a bare-metal ARMv8-A kernel for Raspberry Pi class
//! boards: the kernel heap allocator, the static memory layout and the
//! MMU translation builder, the interrupt-controller register interface,
//! the exception/interrupt dispatcher, and the preemptive task scheduler.
//!
//! Everything here is the decision-making core: it works on plain values
//! (addresses, register images, saved CPU contexts) and leaves the actual
//! privileged instructions and MMIO stores to the thin runtime around it.

pub mod allocator;
pub mod interupt;
pub mod memory_controler;
pub mod mmu;
pub mod rpi3_interrupt_controller;
pub mod scheduler;
pub mod shell;
pub mod syscall;
pub mod userspace;

use vstd::prelude::*;

verus! {

/// Mask of the high address bits that select the kernel translation regime:
/// a virtual address with any of these bits set is translated through the
/// kernel's tables rather than the task's. Equal to the complement of the
/// low 36 address bits.
pub const KERNEL_OFFSET: u64 = 0xFFFF_FFF0_0000_0000;

/// Bytes in one translation page.
pub const PAGE_SIZE: u64 = 4096;

/// The kernel-regime alias of an address: the same physical backing seen
/// through the high translation regime.
pub fn to_kernel_space_address(address: u64) -> (r: u64)
    ensures
        r == address | KERNEL_OFFSET,
{
    address | KERNEL_OFFSET
}

/// The user-regime alias of an address: the high regime-selecting bits
/// stripped off.
pub fn to_user_space_address(address: u64) -> (r: u64)
    ensures
        r == address & !KERNEL_OFFSET,
{
    address & !KERNEL_OFFSET
}

/// How far `address` is from the next page boundary: zero when it sits on
/// one.
pub open spec fn spec_page_align_offset(address: u64) -> u64 {
    if address % PAGE_SIZE == 0 {
        0
    } else {
        (PAGE_SIZE - address % PAGE_SIZE) as u64
    }
}

/// The page range the boot path considers to contain `size` bytes at
/// `address` when it re-maps them: from one page below the next page
/// boundary to the first boundary at or after the end of the bytes.
pub fn pages_containing(address: u64, size: u64) -> (r: (u64, u64))
    requires
        address >= PAGE_SIZE,
        address + size + PAGE_SIZE <= u64::MAX,
    ensures
        r.0 == address + spec_page_align_offset(address) - PAGE_SIZE,
        r.1 == address + size + spec_page_align_offset(address),
        r.0 % PAGE_SIZE == 0,
{
    let rem = address % PAGE_SIZE;
    let off = if rem == 0 {
        0
    } else {
        PAGE_SIZE - rem
    };
    proof {
        let a = address as int;
        let g = PAGE_SIZE as int;
        let o = off as int;
        assert((a + o) % g == 0 && (a + o - g) % g == 0) by (nonlinear_arith)
            requires
                a >= g > 0,
                o == (if a % g == 0 { 0int } else { g - a % g }),
        ;
    }
    (address + off - PAGE_SIZE, address + size + off)
}

} // verus!
