use vstd::prelude::*;

verus! {

/// The byte of the software breakpoint instruction (`int3`).
pub const TRAP_OPCODE: u8 = 0xcc;

/// How far the instruction pointer has moved past a breakpoint when its trap is reported.
pub const TRAP_WIDTH: u64 = 1;

/// The instruction sets whose register files the engine knows.
#[derive(Clone, Copy, Debug, PartialEq, Eq, Structural)]
pub enum Arch {
    X86_64,
    X86,
}

/// Logical registers, named after their 64-bit forms.
#[derive(Clone, Copy, Debug, PartialEq, Eq, Structural)]
pub enum Register {
    Rax,
    Rbx,
    Rcx,
    Rdx,
    Rsi,
    Rdi,
    Rbp,
    Rsp,
    R8,
    R9,
    R10,
    R11,
    R12,
    R13,
    R14,
    R15,
    Rip,
    Eflags,
    OrigRax,
    Cs,
    Ss,
    Ds,
    Es,
    Fs,
    Gs,
    FsBase,
    GsBase,
}

/// The number of slots in the register file of `arch`, as the tracing interface lays it out.
pub open spec fn register_count(arch: Arch) -> nat {
    match arch {
        Arch::X86_64 => 27,
        Arch::X86 => 17,
    }
}

/// Where `reg` sits in the register file of `arch`; `None` where that file has no such register.
pub open spec fn slot_of(arch: Arch, reg: Register) -> Option<nat> {
    match arch {
        Arch::X86_64 => Some(
            match reg {
                Register::R15 => 0nat,
                Register::R14 => 1,
                Register::R13 => 2,
                Register::R12 => 3,
                Register::Rbp => 4,
                Register::Rbx => 5,
                Register::R11 => 6,
                Register::R10 => 7,
                Register::R9 => 8,
                Register::R8 => 9,
                Register::Rax => 10,
                Register::Rcx => 11,
                Register::Rdx => 12,
                Register::Rsi => 13,
                Register::Rdi => 14,
                Register::OrigRax => 15,
                Register::Rip => 16,
                Register::Cs => 17,
                Register::Eflags => 18,
                Register::Rsp => 19,
                Register::Ss => 20,
                Register::FsBase => 21,
                Register::GsBase => 22,
                Register::Ds => 23,
                Register::Es => 24,
                Register::Fs => 25,
                Register::Gs => 26,
            },
        ),
        Arch::X86 => match reg {
            Register::Rbx => Some(0nat),
            Register::Rcx => Some(1),
            Register::Rdx => Some(2),
            Register::Rsi => Some(3),
            Register::Rdi => Some(4),
            Register::Rbp => Some(5),
            Register::Rax => Some(6),
            Register::Ds => Some(7),
            Register::Es => Some(8),
            Register::Fs => Some(9),
            Register::Gs => Some(10),
            Register::OrigRax => Some(11),
            Register::Rip => Some(12),
            Register::Cs => Some(13),
            Register::Eflags => Some(14),
            Register::Rsp => Some(15),
            Register::Ss => Some(16),
            _ => None,
        },
    }
}

/// The architecture named by an ELF header's machine field, if the engine knows it.
pub open spec fn arch_of_machine(machine: u16) -> Option<Arch> {
    if machine == 0x3e {
        Some(Arch::X86_64)
    } else if machine == 0x03 {
        Some(Arch::X86)
    } else {
        None
    }
}

impl Arch {
    /// The profile of a target whose ELF header gives `machine`.
    pub fn from_elf_machine(machine: u16) -> (r: Option<Arch>)
        ensures
            r == arch_of_machine(machine),
    {
        if machine == 0x3e {
            Some(Arch::X86_64)
        } else if machine == 0x03 {
            Some(Arch::X86)
        } else {
            None
        }
    }

    pub fn register_count(self) -> (r: usize)
        ensures
            r == register_count(self),
    {
        match self {
            Arch::X86_64 => 27,
            Arch::X86 => 17,
        }
    }

    /// Where `reg` sits in this architecture's register file.
    pub fn slot(self, reg: Register) -> (r: Option<usize>)
        ensures
            match slot_of(self, reg) {
                Some(n) => r == Some(n as usize) && n < register_count(self),
                None => r.is_none(),
            },
    {
        match self {
            Arch::X86_64 => Some(
                match reg {
                    Register::R15 => 0,
                    Register::R14 => 1,
                    Register::R13 => 2,
                    Register::R12 => 3,
                    Register::Rbp => 4,
                    Register::Rbx => 5,
                    Register::R11 => 6,
                    Register::R10 => 7,
                    Register::R9 => 8,
                    Register::R8 => 9,
                    Register::Rax => 10,
                    Register::Rcx => 11,
                    Register::Rdx => 12,
                    Register::Rsi => 13,
                    Register::Rdi => 14,
                    Register::OrigRax => 15,
                    Register::Rip => 16,
                    Register::Cs => 17,
                    Register::Eflags => 18,
                    Register::Rsp => 19,
                    Register::Ss => 20,
                    Register::FsBase => 21,
                    Register::GsBase => 22,
                    Register::Ds => 23,
                    Register::Es => 24,
                    Register::Fs => 25,
                    Register::Gs => 26,
                },
            ),
            Arch::X86 => match reg {
                Register::Rbx => Some(0),
                Register::Rcx => Some(1),
                Register::Rdx => Some(2),
                Register::Rsi => Some(3),
                Register::Rdi => Some(4),
                Register::Rbp => Some(5),
                Register::Rax => Some(6),
                Register::Ds => Some(7),
                Register::Es => Some(8),
                Register::Fs => Some(9),
                Register::Gs => Some(10),
                Register::OrigRax => Some(11),
                Register::Rip => Some(12),
                Register::Cs => Some(13),
                Register::Eflags => Some(14),
                Register::Rsp => Some(15),
                Register::Ss => Some(16),
                _ => None,
            },
        }
    }
}

/// A snapshot of the tracee's register file, tagged with the architecture it was read as.
pub struct RegisterFile {
    pub arch: Arch,
    pub slots: Vec<u64>,
}

} // verus!
