use vstd::prelude::*;
use crate::compiler::generator::architecture::{
    addition_text, and_text, division_text, exit_marker_text, exit_reg_text, load_variable_text,
    mov_boolean_text, modulo_text, multiplication_text, not_text, or_text, subtraction_text,
    xor_text,
};
use crate::compiler::generator::subroutines::subroutines::{join, subroutines_text, Subroutines};
use crate::utility::text::str_to_string;
use crate::utility::{Arch, OS};

verus! {

/// The instructions of the target system: its architecture and operating
/// system.
#[derive(Clone, Copy, Debug, PartialEq, Eq, Structural)]
pub struct InstructionFactory {
    pub arch: Arch,
    pub os: OS,
}

pub open spec fn comment_text(arch: Arch, os: OS, comment: Seq<char>) -> Seq<char> {
    if arch == Arch::AArch64 && os == OS::Linux {
        "\t// "@ + comment + "\n"@
    } else {
        "\t; "@ + comment + "\n"@
    }
}

/// The exponentiation loop with `{exp_label}` and `{done_label}` standing
/// for its labels.
pub open spec fn factory_exponentiation_text(arch: Arch, os: OS) -> Seq<char> {
    match arch {
        Arch::X86_64 => "mov rax, 1\n{exp_label}:\n\tcmp rcx, 0\n\tje {done_label}\n\timul rax, rdx\n\tdec rcx\n\tjmp {exp_label}\n{done_label}:"@,
        Arch::AArch64 => if os == OS::Linux {
            "mov x0, #1\n{exp_label}:\n\tcmp x1, #0\n\tbeq {done_label}\n\tmul x0, x0, x2\n\tsub x1, x1, #1\n\tb {exp_label}\n{done_label}:"@
        } else {
            "mov x0, 1\n{exp_label}:\n\tcmp x1, #0\n\tbeq {done_label}\n\tmul x0, x0, x2\n\tsub x1, x1, #1\n\tb {exp_label}\n{done_label}:"@
        },
    }
}

pub open spec fn factory_mov_number_text(arch: Arch, os: OS, value: Seq<char>) -> Seq<char> {
    match arch {
        Arch::X86_64 => "mov rax, "@ + value,
        Arch::AArch64 => if os == OS::Linux {
            "mov x0, #"@ + value
        } else {
            "mov x0, "@ + value
        },
    }
}

pub open spec fn factory_program_header_text(arch: Arch, os: OS) -> Seq<char> {
    match arch {
        Arch::X86_64 => if os == OS::Windows {
            "extern ExitProcess\nsection .bss\nbuffer resb 20\nsection .text\n\tglobal _start\n_start:\n"@
        } else {
            "section .bss\nbuffer resb 20\nsection .text\n\tglobal _start\n_start:\n"@
        },
        Arch::AArch64 => if os == OS::Windows {
            "extern ExitProcess\nglobal _start\n_start:\n"@
        } else {
            ".global _start\n.lcomm buffer, 20\n\n.text\n_start:\n"@
        },
    }
}

pub open spec fn factory_exit_instr_text(arch: Arch, os: OS) -> Seq<char> {
    match arch {
        Arch::X86_64 => match os {
            OS::Linux => "mov rax, 60\n\tmov rdi, 0\n\tsyscall"@,
            OS::Windows => "mov rcx, 0\n\tcall ExitProcess"@,
            OS::MacOS => "mov rax, 0x2000001\n\tmov rdi, 0\n\tsyscall"@,
        },
        Arch::AArch64 => match os {
            OS::Linux => "mov x8, #93\n\tmov x0, #0\n\tsvc #0"@,
            OS::Windows => "mov x0, 0\n\tbl ExitProcess"@,
            OS::MacOS => "ldr x16, =0x2000001\n\tmov x0, 0\n\tsvc #0x80"@,
        },
    }
}

pub open spec fn print_instr_text(arch: Arch) -> Seq<char> {
    match arch {
        Arch::X86_64 => "\tlea rdi, [rel buffer+19]\n\tcall int_to_string\n\tmov rsi, rdi\n\tinc rsi\n\tinc rsi\n\tcall print_string\n"@,
        Arch::AArch64 => "\tldr x0, =buffer\n\tadd x0, x0, 19\n\tbl int_to_string\n\tmov x1, x0\n\tadd x1, x1, 2\n\tbl print_string\n"@,
    }
}

pub open spec fn push_instr_text(arch: Arch, reg: Seq<char>) -> Seq<char> {
    match arch {
        Arch::X86_64 => "\tpush "@ + reg + "\n"@,
        Arch::AArch64 => "\tsub sp, sp, #16\n\tstr "@ + reg + ", [sp, #8]\n"@,
    }
}

pub open spec fn pop_instr_text(arch: Arch, reg: Seq<char>) -> Seq<char> {
    match arch {
        Arch::X86_64 => "\tpop "@ + reg + "\n"@,
        Arch::AArch64 => "\tldr "@ + reg + ", [sp, #8]\n\tadd sp, sp, #16\n"@,
    }
}

impl InstructionFactory {
    /// An assembly comment line; AArch64 Linux assemblers take `//`, the
    /// others `;`.
    pub fn generate_comment(&self, comment: &str) -> (r: String)
        ensures
            r@ == comment_text(self.arch, self.os, comment@),
    {
        let mut s = if self.arch == Arch::AArch64 && self.os == OS::Linux {
            str_to_string("\t// ")
        } else {
            str_to_string("\t; ")
        };
        s.append(comment);
        s.append("\n");
        s
    }

    pub fn get_addition_instr(&self) -> (r: &'static str)
        ensures
            r@ == addition_text(self.arch),
    {
        self.arch.get_addition_instr()
    }

    pub fn get_subtraction_instr(&self) -> (r: &'static str)
        ensures
            r@ == subtraction_text(self.arch),
    {
        self.arch.get_subtraction_instr()
    }

    pub fn get_multiplication_instr(&self) -> (r: &'static str)
        ensures
            r@ == multiplication_text(self.arch),
    {
        self.arch.get_multiplication_instr()
    }

    pub fn get_division_instr(&self) -> (r: &'static str)
        ensures
            r@ == division_text(self.arch),
    {
        self.arch.get_division_instr()
    }

    pub fn get_modulo_instr(&self) -> (r: &'static str)
        ensures
            r@ == modulo_text(self.arch),
    {
        self.arch.get_modulo_instr()
    }

    pub fn get_exponentiation_instr(&self) -> (r: &'static str)
        ensures
            r@ == factory_exponentiation_text(self.arch, self.os),
    {
        match self.arch {
            Arch::X86_64 => "mov rax, 1\n{exp_label}:\n\tcmp rcx, 0\n\tje {done_label}\n\timul rax, rdx\n\tdec rcx\n\tjmp {exp_label}\n{done_label}:",
            Arch::AArch64 => if self.os == OS::Linux {
                "mov x0, #1\n{exp_label}:\n\tcmp x1, #0\n\tbeq {done_label}\n\tmul x0, x0, x2\n\tsub x1, x1, #1\n\tb {exp_label}\n{done_label}:"
            } else {
                "mov x0, 1\n{exp_label}:\n\tcmp x1, #0\n\tbeq {done_label}\n\tmul x0, x0, x2\n\tsub x1, x1, #1\n\tb {exp_label}\n{done_label}:"
            },
        }
    }

    pub fn get_mov_number_instr(&self, value: &str) -> (r: String)
        ensures
            r@ == factory_mov_number_text(self.arch, self.os, value@),
    {
        let mut s = match self.arch {
            Arch::X86_64 => str_to_string("mov rax, "),
            Arch::AArch64 => if self.os == OS::Linux {
                str_to_string("mov x0, #")
            } else {
                str_to_string("mov x0, ")
            },
        };
        s.append(value);
        s
    }

    pub fn get_mov_boolean_instr(&self, value: bool) -> (r: String)
        ensures
            r@ == mov_boolean_text(self.arch, value),
    {
        self.arch.get_mov_boolean_instr(value)
    }

    pub fn get_load_variable_instr(&self, offset: usize) -> (r: String)
        ensures
            r@ == load_variable_text(self.arch, offset as nat),
    {
        self.arch.get_load_variable_instr(offset)
    }

    pub fn get_and_instr(&self) -> (r: &'static str)
        ensures
            r@ == and_text(self.arch),
    {
        self.arch.get_and_instr()
    }

    pub fn get_or_instr(&self) -> (r: &'static str)
        ensures
            r@ == or_text(self.arch),
    {
        self.arch.get_or_instr()
    }

    pub fn get_xor_instr(&self) -> (r: &'static str)
        ensures
            r@ == xor_text(self.arch),
    {
        self.arch.get_xor_instr()
    }

    pub fn get_not_instr(&self) -> (r: &'static str)
        ensures
            r@ == not_text(self.arch),
    {
        self.arch.get_not_instr()
    }

    /// The start of the program: the output buffer and the entry point.
    pub fn get_program_header(&self) -> (r: &'static str)
        ensures
            r@ == factory_program_header_text(self.arch, self.os),
    {
        match self.arch {
            Arch::X86_64 => if self.os == OS::Windows {
                "extern ExitProcess\nsection .bss\nbuffer resb 20\nsection .text\n\tglobal _start\n_start:\n"
            } else {
                "section .bss\nbuffer resb 20\nsection .text\n\tglobal _start\n_start:\n"
            },
            Arch::AArch64 => if self.os == OS::Windows {
                "extern ExitProcess\nglobal _start\n_start:\n"
            } else {
                ".global _start\n.lcomm buffer, 20\n\n.text\n_start:\n"
            },
        }
    }

    /// The helper routines that printing calls.
    pub fn get_subroutines(&self) -> (r: String)
        ensures
            r@ == subroutines_text(self.arch, self.os),
    {
        let mut subroutines = Subroutines::new(self.arch, self.os);
        let ghost parts = subroutines.subroutines@.map_values(|s: String| s@);
        proof {
            assert(parts.drop_last().len() == 1);
            assert(join(parts.drop_last(), "\n\n"@) == parts[0]);
        }
        subroutines.generate()
    }

    pub fn get_exit_marker(&self) -> (r: &'static str)
        ensures
            r@ == exit_marker_text(self.arch),
    {
        self.arch.get_exit_marker()
    }

    pub fn get_exit_reg(&self) -> (r: &'static str)
        ensures
            r@ == exit_reg_text(self.arch),
    {
        self.arch.get_exit_reg()
    }

    pub fn get_exit_instr(&self) -> (r: &'static str)
        ensures
            r@ == factory_exit_instr_text(self.arch, self.os),
    {
        match self.arch {
            Arch::X86_64 => match self.os {
                OS::Linux => "mov rax, 60\n\tmov rdi, 0\n\tsyscall",
                OS::Windows => "mov rcx, 0\n\tcall ExitProcess",
                OS::MacOS => "mov rax, 0x2000001\n\tmov rdi, 0\n\tsyscall",
            },
            Arch::AArch64 => match self.os {
                OS::Linux => "mov x8, #93\n\tmov x0, #0\n\tsvc #0",
                OS::Windows => "mov x0, 0\n\tbl ExitProcess",
                OS::MacOS => "ldr x16, =0x2000001\n\tmov x0, 0\n\tsvc #0x80",
            },
        }
    }

    /// Converts the accumulator to text in the buffer and prints it.
    pub fn get_print_instr(&self) -> (r: &'static str)
        ensures
            r@ == print_instr_text(self.arch),
    {
        match self.arch {
            Arch::X86_64 => "\tlea rdi, [rel buffer+19]\n\tcall int_to_string\n\tmov rsi, rdi\n\tinc rsi\n\tinc rsi\n\tcall print_string\n",
            Arch::AArch64 => "\tldr x0, =buffer\n\tadd x0, x0, 19\n\tbl int_to_string\n\tmov x1, x0\n\tadd x1, x1, 2\n\tbl print_string\n",
        }
    }

    pub fn get_push_instr(&self, reg: &str) -> (r: String)
        ensures
            r@ == push_instr_text(self.arch, reg@),
    {
        match self.arch {
            Arch::X86_64 => {
                let mut s = str_to_string("\tpush ");
                s.append(reg);
                s.append("\n");
                s
            },
            Arch::AArch64 => {
                let mut s = str_to_string("\tsub sp, sp, #16\n\tstr ");
                s.append(reg);
                s.append(", [sp, #8]\n");
                s
            },
        }
    }

    pub fn get_pop_instr(&self, reg: &str) -> (r: String)
        ensures
            r@ == pop_instr_text(self.arch, reg@),
    {
        match self.arch {
            Arch::X86_64 => {
                let mut s = str_to_string("\tpop ");
                s.append(reg);
                s.append("\n");
                s
            },
            Arch::AArch64 => {
                let mut s = str_to_string("\tldr ");
                s.append(reg);
                s.append(", [sp, #8]\n\tadd sp, sp, #16\n");
                s
            },
        }
    }
}

} // verus!
