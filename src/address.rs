use vstd::prelude::*;

use crate::instruction_argument::InstructionArgument;

verus! {

/// The site an operand resolves to: a register, a RAM cell, a special register
/// or a literal.
pub type Address = InstructionArgument;

} // verus!
