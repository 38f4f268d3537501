use vstd::prelude::*;
use crate::utility::text::str_to_string;
use crate::utility::{Arch, OS};

verus! {

pub open spec fn int_to_str_x86_64_text() -> Seq<char> {
    "int_to_string:\n\tmov rbx, 10\n\tmov rcx, 1\n\tcall .int_to_string_loop\n\tret\n\n.int_to_string_loop:\n\txor rdx, rdx\n\tdiv rbx\n\tadd dl, '0'\n\tmov [rdi], dl\n\tdec rdi\n\tinc rcx\n\tcmp rax, 0\n\tjnz .int_to_string_loop\n\tinc rdi\n\tmov rax, rcx\n\tret\n"@
}

pub open spec fn int_to_str_x86_64_win_text() -> Seq<char> {
    "int_to_string:\n\tmov rbx, 10\n\tmov rcx, 0\n.int_to_string_loop:\n\txor rdx, rdx\n\tdiv rbx\n\tadd dl, '0'\n\tmov [rdi], dl\n\tdec rdi\n\tinc rcx\n\tcmp rax, 0\n\tjnz .int_to_string_loop\n\tinc rdi\n\tmov rax, rcx\n\tret\n"@
}

pub open spec fn int_to_str_aarch64_text() -> Seq<char> {
    "int_to_string:\n\tmov x1, 10\n\tmov x2, 1\n\n.int_to_string_loop:\n\tudiv x3, x0, x1\n\tmsub x4, x3, x1, x0\n\tadd x4, x4, '0'\n\tstrb w4, [x7], -1\n\tmov x0, x3\n\tadd x2, x2, 1\n\tcmp x0, 0\n\tbne .int_to_string_loop\n\tret\n"@
}

/// The routine that writes the decimal digits of the accumulator backwards
/// into the buffer, for the target system.
pub open spec fn int_to_str_text(arch: Arch, os: OS) -> Seq<char> {
    match arch {
        Arch::X86_64 => if os == OS::Windows {
            int_to_str_x86_64_win_text()
        } else {
            int_to_str_x86_64_text()
        },
        Arch::AArch64 => int_to_str_aarch64_text(),
    }
}

pub fn get_int_to_str_subroutine(arch: Arch, os: OS) -> (r: String)
    ensures
        r@ == int_to_str_text(arch, os),
{
    match arch {
        Arch::X86_64 => if os == OS::Windows {
            get_int_to_str_x86_64_win()
        } else {
            get_int_to_str_x86_64()
        },
        Arch::AArch64 => get_int_to_str_aarch64(),
    }
}

pub fn get_int_to_str_x86_64() -> (r: String)
    ensures
        r@ == int_to_str_x86_64_text(),
{
    str_to_string(
        "int_to_string:\n\tmov rbx, 10\n\tmov rcx, 1\n\tcall .int_to_string_loop\n\tret\n\n.int_to_string_loop:\n\txor rdx, rdx\n\tdiv rbx\n\tadd dl, '0'\n\tmov [rdi], dl\n\tdec rdi\n\tinc rcx\n\tcmp rax, 0\n\tjnz .int_to_string_loop\n\tinc rdi\n\tmov rax, rcx\n\tret\n",
    )
}

pub fn get_int_to_str_x86_64_win() -> (r: String)
    ensures
        r@ == int_to_str_x86_64_win_text(),
{
    str_to_string(
        "int_to_string:\n\tmov rbx, 10\n\tmov rcx, 0\n.int_to_string_loop:\n\txor rdx, rdx\n\tdiv rbx\n\tadd dl, '0'\n\tmov [rdi], dl\n\tdec rdi\n\tinc rcx\n\tcmp rax, 0\n\tjnz .int_to_string_loop\n\tinc rdi\n\tmov rax, rcx\n\tret\n",
    )
}

pub fn get_int_to_str_aarch64() -> (r: String)
    ensures
        r@ == int_to_str_aarch64_text(),
{
    str_to_string(
        "int_to_string:\n\tmov x1, 10\n\tmov x2, 1\n\n.int_to_string_loop:\n\tudiv x3, x0, x1\n\tmsub x4, x3, x1, x0\n\tadd x4, x4, '0'\n\tstrb w4, [x7], -1\n\tmov x0, x3\n\tadd x2, x2, 1\n\tcmp x0, 0\n\tbne .int_to_string_loop\n\tret\n",
    )
}

} // verus!
