use vstd::prelude::*;
use crate::compiler::generator::architecture::{
    addition_text, and_text, division_text, exponentiation_text, modulo_text,
    multiplication_text, not_text, or_text, subtraction_text, xor_text,
};
use crate::utility::text::str_to_string;
use crate::utility::{Arch, OS};

verus! {

/// The registers of an operation (left and right operand), the register
/// with its result, and its instruction lines, as text.
pub type OperationView = ((Seq<char>, Seq<char>), Seq<char>, Seq<Seq<char>>);

pub open spec fn operation_view(d: ((String, String), String, Vec<String>)) -> OperationView {
    (((d.0).0@, (d.0).1@), d.1@, d.2@.map_values(|s: String| s@))
}

/// The operation stored last under `key`, if any.
pub open spec fn lookup(entries: Seq<(Seq<char>, OperationView)>, key: Seq<char>) -> Option<
    OperationView,
>
    decreases entries.len(),
{
    if entries.len() == 0 {
        None
    } else if entries.last().0 == key {
        Some(entries.last().1)
    } else {
        lookup(entries.drop_last(), key)
    }
}

pub open spec fn arithmetic_regs(arch: Arch) -> (Seq<char>, Seq<char>, Seq<char>) {
    match arch {
        Arch::X86_64 => ("rax"@, "rbx"@, "rax"@),
        Arch::AArch64 => ("x0"@, "x1"@, "x0"@),
    }
}

pub open spec fn exponentiation_regs(arch: Arch) -> (Seq<char>, Seq<char>, Seq<char>) {
    match arch {
        Arch::X86_64 => ("rcx"@, "rdx"@, "rax"@),
        Arch::AArch64 => ("x1"@, "x2"@, "x0"@),
    }
}

pub open spec fn modulo_reg(arch: Arch) -> Seq<char> {
    match arch {
        Arch::X86_64 => "rdx"@,
        Arch::AArch64 => "x0"@,
    }
}

pub open spec fn table_entry(
    name: Seq<char>,
    regs: (Seq<char>, Seq<char>, Seq<char>),
    result: Seq<char>,
    instr: Seq<char>,
) -> (Seq<char>, OperationView) {
    (name, ((regs.0, regs.1), result, seq![instr]))
}

/// The operations of the target system by name, in the order they are
/// stored.
pub open spec fn arithmetic_table(arch: Arch, os: OS) -> Seq<(Seq<char>, OperationView)> {
    let a = arithmetic_regs(arch);
    let e = exponentiation_regs(arch);
    seq![
        table_entry("Addition"@, a, a.2, addition_text(arch)),
        table_entry("Subtraction"@, a, a.2, subtraction_text(arch)),
        table_entry("Multiplication"@, a, a.2, multiplication_text(arch)),
        table_entry("Division"@, a, a.2, division_text(arch)),
        table_entry("Exponentiation"@, e, e.2, exponentiation_text(arch, os)),
        table_entry("Modulo"@, a, modulo_reg(arch), modulo_text(arch)),
        table_entry("And"@, a, a.2, and_text(arch)),
        table_entry("Or"@, a, a.2, or_text(arch)),
        table_entry("Xor"@, a, a.2, xor_text(arch)),
        table_entry("Not"@, a, a.2, not_text(arch)),
    ]
}

/// The registers and instructions of each arithmetic and logical operation,
/// by name.
pub struct ArithmeticInstructions {
    instrs: Vec<(String, ((String, String), String, Vec<String>))>,
}

impl View for ArithmeticInstructions {
    type V = Seq<(Seq<char>, OperationView)>;

    closed spec fn view(&self) -> Seq<(Seq<char>, OperationView)> {
        self.instrs@.map_values(
            |e: (String, ((String, String), String, Vec<String>))| (e.0@, operation_view(e.1)),
        )
    }
}

/// Replacing an entry stored under another key leaves a lookup alone.
proof fn lemma_lookup_update_other(
    s: Seq<(Seq<char>, OperationView)>,
    i: int,
    e: (Seq<char>, OperationView),
    k: Seq<char>,
)
    requires
        0 <= i < s.len(),
        s[i].0 != k,
        e.0 != k,
    ensures
        lookup(s.update(i, e), k) == lookup(s, k),
    decreases s.len(),
{
    if i < s.len() - 1 {
        assert(s.update(i, e).drop_last() =~= s.drop_last().update(i, e));
        lemma_lookup_update_other(s.drop_last(), i, e, k);
    } else {
        assert(s.update(i, e).drop_last() =~= s.drop_last());
    }
}

/// Replacing the last entry stored under a key changes that key only.
proof fn lemma_lookup_update_last(
    s: Seq<(Seq<char>, OperationView)>,
    i: int,
    e: (Seq<char>, OperationView),
)
    requires
        0 <= i < s.len(),
        s[i].0 == e.0,
        forall|j: int| i < j < s.len() ==> s[j].0 != e.0,
    ensures
        lookup(s.update(i, e), e.0) == Some(e.1),
        lookup(s, e.0) == Some(s[i].1),
    decreases s.len(),
{
    if i < s.len() - 1 {
        assert(s.update(i, e).drop_last() =~= s.drop_last().update(i, e));
        lemma_lookup_update_last(s.drop_last(), i, e);
    }
}

/// No entry after position `i` is stored under `k`: the lookup goes by the
/// entries up to `i`.
proof fn lemma_lookup_prefix(s: Seq<(Seq<char>, OperationView)>, i: int, k: Seq<char>)
    requires
        0 <= i <= s.len(),
        forall|j: int| i <= j < s.len() ==> s[j].0 != k,
    ensures
        lookup(s, k) == lookup(s.take(i), k),
    decreases s.len() - i,
{
    if i < s.len() {
        lemma_lookup_prefix(s.drop_last(), i, k);
        assert(s.drop_last().take(i) =~= s.take(i));
    } else {
        assert(s.take(i) =~= s);
    }
}

/// The entry at `i` is the last one stored under its key: a lookup finds
/// it.
pub proof fn lemma_lookup_at(s: Seq<(Seq<char>, OperationView)>, i: int)
    requires
        0 <= i < s.len(),
        forall|j: int| i < j < s.len() ==> s[j].0 != s[i].0,
    ensures
        lookup(s, s[i].0) == Some(s[i].1),
{
    lemma_lookup_prefix(s, i + 1, s[i].0);
    assert(s.take(i + 1).last() == s[i]);
}

fn operation(reg_lhs: &str, reg_rhs: &str, result_reg: &str, instruction: &str) -> (r: (
    (String, String),
    String,
    Vec<String>,
))
    ensures
        operation_view(r) == ((reg_lhs@, reg_rhs@), result_reg@, seq![instruction@]),
{
    let mut instructions: Vec<String> = Vec::new();
    instructions.push(str_to_string(instruction));
    let r = ((str_to_string(reg_lhs), str_to_string(reg_rhs)), str_to_string(result_reg), instructions);
    assert(r.2@.map_values(|s: String| s@) =~= seq![instruction@]);
    r
}

impl ArithmeticInstructions {
    /// The operations of the target system `arch` under `os`.
    pub fn new(arch: Arch, os: OS) -> (r: Self)
        ensures
            r@ == arithmetic_table(arch, os),
    {
        let (arith_reg_lhs, arith_reg_rhs, arith_result_reg) = arch.get_arithmetic_regs();
        let (exp_reg_lhs, exp_reg_rhs, exp_result_reg) = arch.get_exponentiation_regs();
        let modulo_result_reg = arch.get_modulo_reg();
        let mut instrs: Vec<(String, ((String, String), String, Vec<String>))> = Vec::new();
        instrs.push(
            (
                str_to_string("Addition"),
                operation(arith_reg_lhs, arith_reg_rhs, arith_result_reg, arch.get_addition_instr()),
            ),
        );
        instrs.push(
            (
                str_to_string("Subtraction"),
                operation(
                    arith_reg_lhs,
                    arith_reg_rhs,
                    arith_result_reg,
                    arch.get_subtraction_instr(),
                ),
            ),
        );
        instrs.push(
            (
                str_to_string("Multiplication"),
                operation(
                    arith_reg_lhs,
                    arith_reg_rhs,
                    arith_result_reg,
                    arch.get_multiplication_instr(),
                ),
            ),
        );
        instrs.push(
            (
                str_to_string("Division"),
                operation(arith_reg_lhs, arith_reg_rhs, arith_result_reg, arch.get_division_instr()),
            ),
        );
        instrs.push(
            (
                str_to_string("Exponentiation"),
                operation(
                    exp_reg_lhs,
                    exp_reg_rhs,
                    exp_result_reg,
                    arch.get_exponentiation_instr(os),
                ),
            ),
        );
        instrs.push(
            (
                str_to_string("Modulo"),
                operation(arith_reg_lhs, arith_reg_rhs, modulo_result_reg, arch.get_modulo_instr()),
            ),
        );
        instrs.push(
            (
                str_to_string("And"),
                operation(arith_reg_lhs, arith_reg_rhs, arith_result_reg, arch.get_and_instr()),
            ),
        );
        instrs.push(
            (
                str_to_string("Or"),
                operation(arith_reg_lhs, arith_reg_rhs, arith_result_reg, arch.get_or_instr()),
            ),
        );
        instrs.push(
            (
                str_to_string("Xor"),
                operation(arith_reg_lhs, arith_reg_rhs, arith_result_reg, arch.get_xor_instr()),
            ),
        );
        instrs.push(
            (
                str_to_string("Not"),
                operation(arith_reg_lhs, arith_reg_rhs, arith_result_reg, arch.get_not_instr()),
            ),
        );
        let r = ArithmeticInstructions { instrs };
        assert(r@ =~= arithmetic_table(arch, os));
        r
    }

    /// Stores `value` under `key`, and returns what was stored there before.
    pub fn insert(&mut self, key: String, value: ((String, String), String, Vec<String>)) -> (r:
        Option<((String, String), String, Vec<String>)>)
        ensures
            forall|k: Seq<char>|
                #![trigger lookup(final(self)@, k)]
                lookup(final(self)@, k) == if k == key@ {
                    Some(operation_view(value))
                } else {
                    lookup(old(self)@, k)
                },
            match r {
                Some(d) => lookup(old(self)@, key@) == Some(operation_view(d)),
                None => lookup(old(self)@, key@) is None,
            },
    {
        let ghost s0 = self@;
        let mut i: usize = self.instrs.len();
        while i > 0
            invariant
                i <= self.instrs.len(),
                s0 == self@,
                s0 == old(self)@,
                forall|j: int| i <= j < s0.len() ==> s0[j].0 != key@,
            decreases i,
        {
            if self.instrs[i - 1].0 == key {
                let ghost e = (key@, operation_view(value));
                let (k, old_value) = self.instrs.remove(i - 1);
                self.instrs.insert(i - 1, (k, value));
                proof {
                    assert(self@ =~= s0.update(i - 1, e));
                    lemma_lookup_update_last(s0, i - 1, e);
                    assert forall|k: Seq<char>| k != key@ implies lookup(self@, k) == lookup(
                        s0,
                        k,
                    ) by {
                        lemma_lookup_update_other(s0, i - 1, e, k);
                    }
                }
                return Some(old_value);
            }
            i = i - 1;
        }
        proof {
            lemma_lookup_prefix(s0, 0, key@);
            assert(s0.take(0) =~= Seq::<(Seq<char>, OperationView)>::empty());
        }
        let ghost kv = key@;
        self.instrs.push((key, value));
        proof {
            assert(self@ =~= s0.push((kv, operation_view(value))));
            assert(self@.drop_last() =~= s0);
        }
        None
    }

    /// The operation stored under `key`, if any.
    pub fn get(&self, key: &String) -> (r: Option<&((String, String), String, Vec<String>)>)
        ensures
            match r {
                Some(d) => lookup(self@, key@) == Some(operation_view(*d)),
                None => lookup(self@, key@) is None,
            },
    {
        let mut i: usize = self.instrs.len();
        while i > 0
            invariant
                i <= self.instrs.len(),
                forall|j: int| i <= j < self@.len() ==> self@[j].0 != key@,
            decreases i,
        {
            if self.instrs[i - 1].0 == *key {
                proof {
                    lemma_lookup_prefix(self@, i as int, key@);
                    assert(self@.take(i as int).drop_last() =~= self@.take(i - 1));
                }
                return Some(&self.instrs[i - 1].1);
            }
            i = i - 1;
        }
        proof {
            lemma_lookup_prefix(self@, 0, key@);
            assert(self@.take(0) =~= Seq::<(Seq<char>, OperationView)>::empty());
        }
        None
    }
}

} // verus!
