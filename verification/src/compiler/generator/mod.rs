pub mod architecture;
pub mod arithmetic_instructions;
pub mod generator;
pub mod instruction_factory;
pub mod stack_handler;
pub mod subroutines;

pub use arithmetic_instructions::ArithmeticInstructions;
pub use instruction_factory::InstructionFactory;
pub use stack_handler::StackHandler;
pub use generator::Generator;
