use vstd::prelude::*;
use crate::utility::text::str_to_string;
use crate::utility::{Arch, OS};

verus! {

pub open spec fn print_x86_64_mac_text() -> Seq<char> {
    "print_string:\n\tmov rax, 0x2000004\n\tmov rsi, rdi\n\tmov rdi, 1\n\tmov rdx, rcx\n\tsyscall\n\tmov rax, 0x2000004\n\tsub rsp, 8\n\tmov byte [rsp], 0x0A\n\tmov rsi, rsp\n\tmov rdx, 1\n\tsyscall\n\tadd rsp, 8\n\tret\n"@
}

pub open spec fn print_x86_64_linux_text() -> Seq<char> {
    "print_string:\n\tmov rax, 1\n\tmov rsi, rdi\n\tmov rdi, 1\n\tmov rdx, rcx\n\tsyscall\n\tmov rax, 1\n\tsub rsp, 8\n\tmov byte [rsp], 0x0A\n\tmov rsi, rsp\n\tmov rdx, 1\n\tsyscall\n\tadd rsp, 8\n\tret\n"@
}

pub open spec fn print_aarch64_linux_text() -> Seq<char> {
    "print_string:\n\tmov x8, #64\n\tmov x0, #1\n\tsvc #0\n\tldr x1, =newline\n\tmov x2, #1\n\tsvc #0\n\tret\n"@
}

pub open spec fn print_aarch64_mac_text() -> Seq<char> {
    "print_string:\n\tldr x16, =0x2000004\n\tmov x0, #1\n\tsvc #0x80\n\tLLD_ADDR x1, newline\n\tmov x2, #1\n\tsvc #0x80\n\tret\n"@
}

pub open spec fn print_windows_text() -> Seq<char> {
    "print_string:\n\tmov r8, rax\n\tmov rcx, -11\n\tcall GetStdHandle\n\tmov rcx, rax\n\tlea rdx, [rdi]\n\txor r9, r9\n\txor r10, r10\n\tcall WriteFile\n\tret"@
}

/// The routine that writes the digits in the buffer and a line break to
/// standard output, for the target system.
pub open spec fn print_subroutine_text(arch: Arch, os: OS) -> Seq<char> {
    match os {
        OS::Windows => print_windows_text(),
        OS::Linux => match arch {
            Arch::X86_64 => print_x86_64_linux_text(),
            Arch::AArch64 => print_aarch64_linux_text(),
        },
        OS::MacOS => match arch {
            Arch::X86_64 => print_x86_64_mac_text(),
            Arch::AArch64 => print_aarch64_mac_text(),
        },
    }
}

pub fn get_print_subroutine(arch: Arch, os: OS) -> (r: String)
    ensures
        r@ == print_subroutine_text(arch, os),
{
    match (arch, os) {
        (Arch::X86_64, OS::Linux) => get_print_x86_64_linux(),
        (Arch::X86_64, OS::MacOS) => get_print_x86_64_mac(),
        (Arch::X86_64, OS::Windows) => get_print_windows(),
        (Arch::AArch64, OS::Linux) => get_print_aarch64_linux(),
        (Arch::AArch64, OS::MacOS) => get_print_aarch64_mac(),
        _ => get_print_windows(),
    }
}

pub fn get_print_x86_64_mac() -> (r: String)
    ensures
        r@ == print_x86_64_mac_text(),
{
    str_to_string(
        "print_string:\n\tmov rax, 0x2000004\n\tmov rsi, rdi\n\tmov rdi, 1\n\tmov rdx, rcx\n\tsyscall\n\tmov rax, 0x2000004\n\tsub rsp, 8\n\tmov byte [rsp], 0x0A\n\tmov rsi, rsp\n\tmov rdx, 1\n\tsyscall\n\tadd rsp, 8\n\tret\n",
    )
}

pub fn get_print_x86_64_linux() -> (r: String)
    ensures
        r@ == print_x86_64_linux_text(),
{
    str_to_string(
        "print_string:\n\tmov rax, 1\n\tmov rsi, rdi\n\tmov rdi, 1\n\tmov rdx, rcx\n\tsyscall\n\tmov rax, 1\n\tsub rsp, 8\n\tmov byte [rsp], 0x0A\n\tmov rsi, rsp\n\tmov rdx, 1\n\tsyscall\n\tadd rsp, 8\n\tret\n",
    )
}

pub fn get_print_aarch64_linux() -> (r: String)
    ensures
        r@ == print_aarch64_linux_text(),
{
    str_to_string(
        "print_string:\n\tmov x8, #64\n\tmov x0, #1\n\tsvc #0\n\tldr x1, =newline\n\tmov x2, #1\n\tsvc #0\n\tret\n",
    )
}

pub fn get_print_aarch64_mac() -> (r: String)
    ensures
        r@ == print_aarch64_mac_text(),
{
    str_to_string(
        "print_string:\n\tldr x16, =0x2000004\n\tmov x0, #1\n\tsvc #0x80\n\tLLD_ADDR x1, newline\n\tmov x2, #1\n\tsvc #0x80\n\tret\n",
    )
}

pub fn get_print_windows() -> (r: String)
    ensures
        r@ == print_windows_text(),
{
    str_to_string(
        "print_string:\n\tmov r8, rax\n\tmov rcx, -11\n\tcall GetStdHandle\n\tmov rcx, rax\n\tlea rdx, [rdi]\n\txor r9, r9\n\txor r10, r10\n\tcall WriteFile\n\tret",
    )
}

} // verus!
