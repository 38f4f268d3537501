use brs::compiler::generator::ArithmeticInstructions;
use brs::utility::{Arch, OS};

fn all_targets() -> Vec<(Arch, OS)> {
    vec![
        (Arch::X86_64, OS::Linux),
        (Arch::X86_64, OS::MacOS),
        (Arch::X86_64, OS::Windows),
        (Arch::AArch64, OS::Linux),
        (Arch::AArch64, OS::MacOS),
        (Arch::AArch64, OS::Windows),
    ]
}

#[test]
fn arithmetic_instructions_test_init() {
    for (arch, os) in all_targets() {
        let obj = ArithmeticInstructions::new(arch, os);
        let expected_keys = [
            "Addition", "Subtraction", "Multiplication", "Division", "Exponentiation", "Modulo",
            "And", "Or", "Xor", "Not",
        ];
        for key in expected_keys.iter() {
            assert!(obj.get(&key.to_string()).is_some(), "Missing key: {}", key);
        }
    }
}

#[test]
fn test_get_all_operations() {
    for (arch, os) in all_targets() {
        let obj = ArithmeticInstructions::new(arch, os);
        let operations = vec![
            ("Addition", arch.get_addition_instr()),
            ("Subtraction", arch.get_subtraction_instr()),
            ("Multiplication", arch.get_multiplication_instr()),
            ("Division", arch.get_division_instr()),
            ("Exponentiation", arch.get_exponentiation_instr(os)),
            ("Modulo", arch.get_modulo_instr()),
            ("And", arch.get_and_instr()),
            ("Or", arch.get_or_instr()),
            ("Xor", arch.get_xor_instr()),
            ("Not", arch.get_not_instr()),
        ];
        for (key, expected_instr) in operations {
            if let Some(((lhs, rhs), result, instructions)) = obj.get(&key.to_string()) {
                let (expected_lhs, expected_rhs, expected_result) = match key {
                    "Exponentiation" => match arch {
                        Arch::X86_64 => ("rcx", "rdx", "rax"),
                        Arch::AArch64 => ("x1", "x2", "x0"),
                    },
                    "Modulo" => match arch {
                        Arch::X86_64 => ("rax", "rbx", "rdx"),
                        Arch::AArch64 => ("x0", "x1", "x0"),
                    },
                    _ => match arch {
                        Arch::X86_64 => ("rax", "rbx", "rax"),
                        Arch::AArch64 => ("x0", "x1", "x0"),
                    },
                };
                assert_eq!(lhs, expected_lhs, "LHS register mismatch for {}", key);
                assert_eq!(rhs, expected_rhs, "RHS register mismatch for {}", key);
                assert_eq!(result, expected_result, "Result register mismatch for {}", key);
                assert_eq!(instructions.len(), 1, "Unexpected instruction count for {}", key);
                assert_eq!(instructions[0], expected_instr, "Instruction mismatch for {}", key);
            } else {
                panic!("Failed to retrieve {} operation from HashMap", key);
            }
        }
    }
}

#[test]
fn test_get_unknown_operation() {
    let obj = ArithmeticInstructions::new(Arch::X86_64, OS::Linux);
    let key = "UnknownOperation".to_string();
    assert!(obj.get(&key).is_none(), "Expected None for an unknown operation");
}

#[test]
fn insert_replaces_and_returns_previous_entry() {
    let mut obj = ArithmeticInstructions::new(Arch::X86_64, OS::Linux);
    let value = (("r8".to_string(), "r9".to_string()), "r10".to_string(), vec!["nop".to_string()]);
    let old = obj.insert("Addition".to_string(), value.clone());
    assert_eq!(
        old,
        Some((("rax".to_string(), "rbx".to_string()), "rax".to_string(), vec!["add rax, rbx".to_string()]))
    );
    assert_eq!(obj.get(&"Addition".to_string()), Some(&value));
    assert_eq!(
        obj.get(&"Subtraction".to_string()).map(|d| d.2[0].clone()),
        Some("sub rax, rbx".to_string())
    );
}

#[test]
fn insert_of_new_key_returns_none() {
    let mut obj = ArithmeticInstructions::new(Arch::AArch64, OS::Linux);
    let value = (("x5".to_string(), "x6".to_string()), "x7".to_string(), vec!["nop".to_string()]);
    assert_eq!(obj.insert("Shift".to_string(), value.clone()), None);
    assert_eq!(obj.get(&"Shift".to_string()), Some(&value));
}
