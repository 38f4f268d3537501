pub mod arch;
pub mod os;
pub mod text;

pub use arch::Arch;
pub use os::OS;
