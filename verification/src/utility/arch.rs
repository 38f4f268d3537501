use vstd::prelude::*;

verus! {

/// The processor architectures for which assembly can be generated.
#[derive(Clone, Copy, Debug, PartialEq, Eq, Structural)]
pub enum Arch {
    X86_64,
    AArch64,
}

impl Arch {
    /// The registers of a binary arithmetic operation: left operand, right
    /// operand and result.
    pub fn get_arithmetic_regs(&self) -> (r: (&str, &str, &str))
        ensures
            *self == Arch::X86_64 ==> r.0@ == "rax"@ && r.1@ == "rbx"@ && r.2@ == "rax"@,
            *self == Arch::AArch64 ==> r.0@ == "x0"@ && r.1@ == "x1"@ && r.2@ == "x0"@,
    {
        match self {
            Arch::X86_64 => ("rax", "rbx", "rax"),
            Arch::AArch64 => ("x0", "x1", "x0"),
        }
    }

    /// The registers of an exponentiation: exponent, base and result.
    pub fn get_exponentiation_regs(&self) -> (r: (&str, &str, &str))
        ensures
            *self == Arch::X86_64 ==> r.0@ == "rcx"@ && r.1@ == "rdx"@ && r.2@ == "rax"@,
            *self == Arch::AArch64 ==> r.0@ == "x1"@ && r.1@ == "x2"@ && r.2@ == "x0"@,
    {
        match self {
            Arch::X86_64 => ("rcx", "rdx", "rax"),
            Arch::AArch64 => ("x1", "x2", "x0"),
        }
    }

    /// The register that holds the remainder of a division.
    pub fn get_modulo_reg(&self) -> (r: &str)
        ensures
            *self == Arch::X86_64 ==> r@ == "rdx"@,
            *self == Arch::AArch64 ==> r@ == "x0"@,
    {
        match self {
            Arch::X86_64 => "rdx",
            Arch::AArch64 => "x0",
        }
    }
}

} // verus!
