//! The syscall numbering shared between user tasks and the kernel: a small
//! closed set of syscalls, each passed as a number in a designated register
//! and decoded back by the dispatcher.

use vstd::prelude::*;

verus! {

/// The closed set of syscalls the kernel services, in numbering order
/// starting at zero.
#[derive(Copy, Clone, Debug, PartialEq, Eq, Structural)]
pub enum Syscalls {
    Print,
    NewTask,
    TerminateTask,
    GetTime,
    GetFrequency,
    Yield,
}

/// The number a syscall travels as.
pub open spec fn spec_syscall_number(s: Syscalls) -> u64 {
    match s {
        Syscalls::Print => 0,
        Syscalls::NewTask => 1,
        Syscalls::TerminateTask => 2,
        Syscalls::GetTime => 3,
        Syscalls::GetFrequency => 4,
        Syscalls::Yield => 5,
    }
}

/// The syscall a number names, if it names one.
pub open spec fn spec_syscall_from_number(v: u64) -> Option<Syscalls> {
    if v == 0 {
        Some(Syscalls::Print)
    } else if v == 1 {
        Some(Syscalls::NewTask)
    } else if v == 2 {
        Some(Syscalls::TerminateTask)
    } else if v == 3 {
        Some(Syscalls::GetTime)
    } else if v == 4 {
        Some(Syscalls::GetFrequency)
    } else if v == 5 {
        Some(Syscalls::Yield)
    } else {
        None
    }
}

impl Syscalls {
    /// The number this syscall travels as.
    pub fn to_u64(self) -> (r: u64)
        ensures
            r == spec_syscall_number(self),
    {
        match self {
            Syscalls::Print => 0,
            Syscalls::NewTask => 1,
            Syscalls::TerminateTask => 2,
            Syscalls::GetTime => 3,
            Syscalls::GetFrequency => 4,
            Syscalls::Yield => 5,
        }
    }

    /// Decodes a syscall number; an unknown number decodes to nothing.
    pub fn from_u64(v: u64) -> (r: Option<Syscalls>)
        ensures
            r == spec_syscall_from_number(v),
    {
        if v == 0 {
            Some(Syscalls::Print)
        } else if v == 1 {
            Some(Syscalls::NewTask)
        } else if v == 2 {
            Some(Syscalls::TerminateTask)
        } else if v == 3 {
            Some(Syscalls::GetTime)
        } else if v == 4 {
            Some(Syscalls::GetFrequency)
        } else if v == 5 {
            Some(Syscalls::Yield)
        } else {
            None
        }
    }
}

/// Encoding a syscall and decoding the number gives the syscall back, and
/// decoding any recognized number and re-encoding gives the number back:
/// the numbering is a bijection between the syscall set and 0 through 5.
pub proof fn lemma_syscall_numbering_round_trip(s: Syscalls, v: u64)
    ensures
        spec_syscall_from_number(spec_syscall_number(s)) == Some(s),
        spec_syscall_from_number(v) matches Some(d) ==> spec_syscall_number(d) == v,
{
}

} // verus!
