use vstd::prelude::*;
use crate::utility::text::{push_decimal, decimal, str_to_string};
use crate::utility::{Arch, OS};

verus! {

pub open spec fn addition_text(arch: Arch) -> Seq<char> {
    match arch {
        Arch::X86_64 => "add rax, rbx"@,
        Arch::AArch64 => "add x0, x1, x2"@,
    }
}

pub open spec fn subtraction_text(arch: Arch) -> Seq<char> {
    match arch {
        Arch::X86_64 => "sub rax, rbx"@,
        Arch::AArch64 => "sub x0, x1, x2"@,
    }
}

pub open spec fn multiplication_text(arch: Arch) -> Seq<char> {
    match arch {
        Arch::X86_64 => "mul rbx"@,
        Arch::AArch64 => "mul x0, x1, x2"@,
    }
}

pub open spec fn division_text(arch: Arch) -> Seq<char> {
    match arch {
        Arch::X86_64 => "xor rdx, rdx\n\tdiv rbx"@,
        Arch::AArch64 => "sdiv x0, x1, x2"@,
    }
}

pub open spec fn modulo_text(arch: Arch) -> Seq<char> {
    match arch {
        Arch::X86_64 => "xor rdx, rdx\n\tdiv rbx"@,
        Arch::AArch64 => "sdiv x3, x1, x2\n\tmsub x0, x3, x2, x1"@,
    }
}

/// The exponentiation loop, with `{exp_label}` and `{done_label}` (on
/// x86-64) or `exp_label` and `done_label` (on AArch64) standing for its
/// labels.
pub open spec fn exponentiation_text(arch: Arch, os: OS) -> Seq<char> {
    match arch {
        Arch::X86_64 => "mov rax, 1\n{exp_label}:\n\tcmp rcx, 0\n\tje {done_label}\n\timul rax, rdx\n\tdec rcx\n\tjmp {exp_label}\n{done_label}:"@,
        Arch::AArch64 => if os == OS::Linux {
            "mov x0, #1\nexp_label:\n\tcmp x1, #0\n\tbeq done_label\n\tmul x0, x0, x2\n\tsub x1, x1, #1\n\tb exp_label\ndone_label:"@
        } else {
            "mov x0, 1\nexp_label:\n\tcmp x1, #0\n\tbeq done_label\n\tmul x0, x0, x2\n\tsub x1, x1, #1\n\tb exp_label\ndone_label:"@
        },
    }
}

pub open spec fn mov_number_text(arch: Arch, os: OS, value: Seq<char>) -> Seq<char> {
    match arch {
        Arch::X86_64 => "mov rax, "@ + value,
        Arch::AArch64 => if os == OS::Linux {
            "mov x0, #"@ + value
        } else {
            "mov x0, "@ + value
        },
    }
}

pub open spec fn mov_boolean_text(arch: Arch, value: bool) -> Seq<char> {
    match arch {
        Arch::X86_64 => if value {
            "mov rax, 1"@
        } else {
            "mov rax, 0"@
        },
        Arch::AArch64 => if value {
            "mov x0, 1"@
        } else {
            "mov x0, 0"@
        },
    }
}

pub open spec fn load_variable_text(arch: Arch, offset: nat) -> Seq<char> {
    match arch {
        Arch::X86_64 => "mov rax, [rsp + "@ + decimal(offset) + "]"@,
        Arch::AArch64 => "ldr x0, [sp, #"@ + decimal(offset) + "]"@,
    }
}

pub open spec fn and_text(arch: Arch) -> Seq<char> {
    match arch {
        Arch::X86_64 => "and rax, rbx"@,
        Arch::AArch64 => "and x0, x1, x2"@,
    }
}

pub open spec fn or_text(arch: Arch) -> Seq<char> {
    match arch {
        Arch::X86_64 => "or rax, rbx"@,
        Arch::AArch64 => "orr x0, x1, x2"@,
    }
}

pub open spec fn xor_text(arch: Arch) -> Seq<char> {
    match arch {
        Arch::X86_64 => "xor rax, rbx"@,
        Arch::AArch64 => "eor x0, x1, x2"@,
    }
}

pub open spec fn not_text(arch: Arch) -> Seq<char> {
    match arch {
        Arch::X86_64 => "xor rax, 1"@,
        Arch::AArch64 => "eor x0, x0, #1"@,
    }
}

pub open spec fn program_header_text(arch: Arch) -> Seq<char> {
    match arch {
        Arch::X86_64 => "global _start\n_start:\n"@,
        Arch::AArch64 => ".global _start\n_start:\n"@,
    }
}

pub open spec fn exit_marker_text(arch: Arch) -> Seq<char> {
    match arch {
        Arch::X86_64 => "syscall"@,
        Arch::AArch64 => "svc #0"@,
    }
}

pub open spec fn exit_reg_text(arch: Arch) -> Seq<char> {
    match arch {
        Arch::X86_64 => "rdi"@,
        Arch::AArch64 => "x0"@,
    }
}

/// The system call that ends the program with status 0: Linux numbering on
/// Linux, macOS numbering elsewhere.
pub open spec fn exit_instr_text(arch: Arch, os: OS) -> Seq<char> {
    match arch {
        Arch::X86_64 => if os == OS::Linux {
            "mov rax, 60\n\tmov rdi, 0\n\tsyscall"@
        } else {
            "mov rax, 0x2000001\n\tmov rdi, 0\n\tsyscall"@
        },
        Arch::AArch64 => if os == OS::Linux {
            "mov x8, #93\n\tmov x0, #0\n\tsvc #0"@
        } else {
            "ldr x16, =0x2000001\n\tmov x0, 0\n\tsvc #0x80"@
        },
    }
}

impl Arch {
    pub fn get_addition_instr(&self) -> (r: &'static str)
        ensures
            r@ == addition_text(*self),
    {
        match self {
            Arch::X86_64 => "add rax, rbx",
            Arch::AArch64 => "add x0, x1, x2",
        }
    }

    pub fn get_subtraction_instr(&self) -> (r: &'static str)
        ensures
            r@ == subtraction_text(*self),
    {
        match self {
            Arch::X86_64 => "sub rax, rbx",
            Arch::AArch64 => "sub x0, x1, x2",
        }
    }

    pub fn get_multiplication_instr(&self) -> (r: &'static str)
        ensures
            r@ == multiplication_text(*self),
    {
        match self {
            Arch::X86_64 => "mul rbx",
            Arch::AArch64 => "mul x0, x1, x2",
        }
    }

    pub fn get_division_instr(&self) -> (r: &'static str)
        ensures
            r@ == division_text(*self),
    {
        match self {
            Arch::X86_64 => "xor rdx, rdx\n\tdiv rbx",
            Arch::AArch64 => "sdiv x0, x1, x2",
        }
    }

    pub fn get_modulo_instr(&self) -> (r: &'static str)
        ensures
            r@ == modulo_text(*self),
    {
        match self {
            Arch::X86_64 => "xor rdx, rdx\n\tdiv rbx",
            Arch::AArch64 => "sdiv x3, x1, x2\n\tmsub x0, x3, x2, x1",
        }
    }

    /// The exponentiation loop for the target system `os`.
    pub fn get_exponentiation_instr(&self, os: OS) -> (r: &'static str)
        ensures
            r@ == exponentiation_text(*self, os),
    {
        match self {
            Arch::X86_64 => "mov rax, 1\n{exp_label}:\n\tcmp rcx, 0\n\tje {done_label}\n\timul rax, rdx\n\tdec rcx\n\tjmp {exp_label}\n{done_label}:",
            Arch::AArch64 => if os == OS::Linux {
                "mov x0, #1\nexp_label:\n\tcmp x1, #0\n\tbeq done_label\n\tmul x0, x0, x2\n\tsub x1, x1, #1\n\tb exp_label\ndone_label:"
            } else {
                "mov x0, 1\nexp_label:\n\tcmp x1, #0\n\tbeq done_label\n\tmul x0, x0, x2\n\tsub x1, x1, #1\n\tb exp_label\ndone_label:"
            },
        }
    }

    /// Loads the number written `value` into the accumulator.
    pub fn get_mov_number_instr(&self, os: OS, value: &str) -> (r: String)
        ensures
            r@ == mov_number_text(*self, os, value@),
    {
        let mut s = match self {
            Arch::X86_64 => str_to_string("mov rax, "),
            Arch::AArch64 => if os == OS::Linux {
                str_to_string("mov x0, #")
            } else {
                str_to_string("mov x0, ")
            },
        };
        s.append(value);
        s
    }

    pub fn get_mov_boolean_instr(&self, value: bool) -> (r: String)
        ensures
            r@ == mov_boolean_text(*self, value),
    {
        match self {
            Arch::X86_64 => if value {
                str_to_string("mov rax, 1")
            } else {
                str_to_string("mov rax, 0")
            },
            Arch::AArch64 => if value {
                str_to_string("mov x0, 1")
            } else {
                str_to_string("mov x0, 0")
            },
        }
    }

    /// Loads the value `offset` bytes above the stack pointer.
    pub fn get_load_variable_instr(&self, offset: usize) -> (r: String)
        ensures
            r@ == load_variable_text(*self, offset as nat),
    {
        let mut s = match self {
            Arch::X86_64 => str_to_string("mov rax, [rsp + "),
            Arch::AArch64 => str_to_string("ldr x0, [sp, #"),
        };
        push_decimal(&mut s, offset);
        s.append("]");
        s
    }

    pub fn get_and_instr(&self) -> (r: &'static str)
        ensures
            r@ == and_text(*self),
    {
        match self {
            Arch::X86_64 => "and rax, rbx",
            Arch::AArch64 => "and x0, x1, x2",
        }
    }

    pub fn get_or_instr(&self) -> (r: &'static str)
        ensures
            r@ == or_text(*self),
    {
        match self {
            Arch::X86_64 => "or rax, rbx",
            Arch::AArch64 => "orr x0, x1, x2",
        }
    }

    pub fn get_xor_instr(&self) -> (r: &'static str)
        ensures
            r@ == xor_text(*self),
    {
        match self {
            Arch::X86_64 => "xor rax, rbx",
            Arch::AArch64 => "eor x0, x1, x2",
        }
    }

    pub fn get_not_instr(&self) -> (r: &'static str)
        ensures
            r@ == not_text(*self),
    {
        match self {
            Arch::X86_64 => "xor rax, 1",
            Arch::AArch64 => "eor x0, x0, #1",
        }
    }

    pub fn get_program_header(&self) -> (r: &'static str)
        ensures
            r@ == program_header_text(*self),
    {
        match self {
            Arch::X86_64 => "global _start\n_start:\n",
            Arch::AArch64 => ".global _start\n_start:\n",
        }
    }

    /// The instruction that every exit ends with.
    pub fn get_exit_marker(&self) -> (r: &'static str)
        ensures
            r@ == exit_marker_text(*self),
    {
        match self {
            Arch::X86_64 => "syscall",
            Arch::AArch64 => "svc #0",
        }
    }

    /// The register that holds the exit status.
    pub fn get_exit_reg(&self) -> (r: &'static str)
        ensures
            r@ == exit_reg_text(*self),
    {
        match self {
            Arch::X86_64 => "rdi",
            Arch::AArch64 => "x0",
        }
    }

    /// Ends the program with status 0 on the target system `os`.
    pub fn get_exit_instr(&self, os: OS) -> (r: &'static str)
        ensures
            r@ == exit_instr_text(*self, os),
    {
        match self {
            Arch::X86_64 => if os == OS::Linux {
                "mov rax, 60\n\tmov rdi, 0\n\tsyscall"
            } else {
                "mov rax, 0x2000001\n\tmov rdi, 0\n\tsyscall"
            },
            Arch::AArch64 => if os == OS::Linux {
                "mov x8, #93\n\tmov x0, #0\n\tsvc #0"
            } else {
                "ldr x16, =0x2000001\n\tmov x0, 0\n\tsvc #0x80"
            },
        }
    }
}

} // verus!
