//! A minimal bytecode virtual machine: a value model over 64-bit integers and
//! exact base-10 decimals, an instruction set with a fixed wire encoding, a
//! binary codec for programs, a line-oriented assembler, and a stack-machine
//! interpreter.

pub mod assembler;
pub mod data;
pub mod dec;
pub mod instruction;
pub mod interp;
pub mod program;
pub mod text;
pub mod wire;

pub use assembler::Assembler;
pub use data::Data;
pub use dec::Dec;
pub use instruction::Instruction;
pub use instruction::OpCode;
pub use instruction::Operands;
pub use interp::ExitStatus;
pub use interp::Interpreter;
pub use interp::RuntimeError;
pub use interp::StepResult;
pub use program::Program;
