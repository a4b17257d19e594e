use vstd::prelude::*;

use crate::instruction_argument::InstructionArgumentDefinition;

verus! {

/// The kind of an operand, as a 6-bit operand field selects it.
pub type Value = InstructionArgumentDefinition;

} // verus!
