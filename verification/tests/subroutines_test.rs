use brs::compiler::generator::subroutines::int_to_str::{
    get_int_to_str_aarch64, get_int_to_str_subroutine, get_int_to_str_x86_64,
    get_int_to_str_x86_64_win,
};
use brs::compiler::generator::subroutines::print::{
    get_print_aarch64_linux, get_print_aarch64_mac, get_print_subroutine, get_print_windows,
    get_print_x86_64_linux, get_print_x86_64_mac,
};
use brs::compiler::generator::subroutines::Subroutines;
use brs::utility::{Arch, OS};

fn all_targets() -> Vec<(Arch, OS)> {
    vec![
        (Arch::X86_64, OS::Linux),
        (Arch::X86_64, OS::MacOS),
        (Arch::X86_64, OS::Windows),
        (Arch::AArch64, OS::Linux),
        (Arch::AArch64, OS::MacOS),
        (Arch::AArch64, OS::Windows),
    ]
}

#[test]
fn int_to_str_test_subroutine() {
    for (arch, os) in all_targets() {
        match (arch, os) {
            (Arch::X86_64, OS::Windows) => {
                assert_eq!(get_int_to_str_subroutine(arch, os), get_int_to_str_x86_64_win())
            }
            (Arch::X86_64, _) => assert_eq!(get_int_to_str_subroutine(arch, os), get_int_to_str_x86_64()),
            (Arch::AArch64, _) => assert_eq!(get_int_to_str_subroutine(arch, os), get_int_to_str_aarch64()),
        }
    }
}

#[test]
fn print_test_subroutine() {
    for (arch, os) in all_targets() {
        let result = get_print_subroutine(arch, os);
        match (arch, os) {
            (Arch::X86_64, OS::Linux) => assert_eq!(result, get_print_x86_64_linux()),
            (Arch::X86_64, OS::MacOS) => assert_eq!(result, get_print_x86_64_mac()),
            (Arch::AArch64, OS::Linux) => assert_eq!(result, get_print_aarch64_linux()),
            (Arch::AArch64, OS::MacOS) => assert_eq!(result, get_print_aarch64_mac()),
            _ => assert_eq!(result, get_print_windows()),
        }
    }
}

#[test]
fn conversion_routine_texts() {
    assert!(get_int_to_str_x86_64().starts_with("int_to_string:\n\tmov rbx, 10\n\tmov rcx, 1\n"));
    assert!(get_int_to_str_x86_64_win().starts_with("int_to_string:\n\tmov rbx, 10\n\tmov rcx, 0\n"));
    assert!(get_int_to_str_aarch64().ends_with("\tbne .int_to_string_loop\n\tret\n"));
    assert!(get_print_windows().ends_with("\tcall WriteFile\n\tret"));
}

#[test]
fn subroutines_are_joined_by_a_blank_line() {
    let mut s = Subroutines::new(Arch::AArch64, OS::Linux);
    assert_eq!(s.subroutines.len(), 2);
    let expected = format!("{}\n\n{}", get_print_aarch64_linux(), get_int_to_str_aarch64());
    assert_eq!(s.generate(), expected);
}
