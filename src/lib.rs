//! A DCPU-16 toolchain: an emulator that decodes and executes a program image,
//! and an assembler that turns source text with labels into such an image.
use vstd::prelude::*;

pub mod address;
pub mod alu;
pub mod assembler;
pub mod cpu;
pub mod disassemble;
pub mod hex;
pub mod hexdump;
pub mod instruction;
pub mod instruction_argument;
pub mod instruction_with_operands;
pub mod lexer;
pub mod parser;
pub mod register;
pub mod semantics;
pub mod value;

pub use crate::address::Address;
pub use crate::assembler::assemble;
pub use crate::cpu::DCPU16;
pub use crate::disassemble::Disassemble;
pub use crate::instruction::{Instruction, InstructionWord, NonBasicInstruction};
pub use crate::instruction_argument::{InstructionArgument, InstructionArgumentDefinition};
pub use crate::instruction_with_operands::{InstructionWithOperands, ResolvedValue};
pub use crate::register::Register;
pub use crate::parser::AssembleError;
pub use crate::semantics::MachineState;
pub use crate::value::Value;

verus! {

/// A 16-bit machine word.
pub type Word = u16;

} // verus!
