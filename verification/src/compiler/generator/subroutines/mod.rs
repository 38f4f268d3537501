pub mod int_to_str;
pub mod print;
pub mod subroutines;

pub use int_to_str::get_int_to_str_subroutine;
pub use print::get_print_subroutine;
pub use subroutines::Subroutines;
