use vstd::prelude::*;

use crate::cpu::DCPU16;
use crate::instruction::{Instruction, InstructionWord};
use crate::instruction_argument::{InstructionArgument, InstructionArgumentDefinition};
use crate::semantics::{resolve_spec, well_formed};
use crate::Word;

verus! {

/// An operand with its kind, the site it resolved to and the value read there.
#[derive(Debug, Copy, Clone, PartialEq, Eq, Structural)]
pub struct ResolvedValue {
    /// The kind of the operand, from the instruction word.
    pub argument_definition: InstructionArgumentDefinition,
    /// The site the operand resolved to.
    pub argument: InstructionArgument,
    /// The value read from the site.
    pub resolved_value: Word,
}

impl ResolvedValue {
    /// Unpacks the value into its site and the value read there.
    pub fn unpack(&self) -> (r: (InstructionArgument, Word))
        ensures
            r == (self.argument, self.resolved_value),
    {
        (self.argument, self.resolved_value)
    }
}

/// An instruction whose operands have been resolved against a machine.
#[derive(Debug, Copy, Clone, PartialEq, Eq, Structural)]
pub struct InstructionWithOperands {
    /// The raw instruction word.
    pub raw_instruction: Word,
    /// The decoded instruction word.
    pub instruction: InstructionWord,
    /// The first operand.
    pub a: ResolvedValue,
    /// The second operand, for the basic instructions.
    pub b: Option<ResolvedValue>,
}

impl InstructionWithOperands {
    /// The operands match the instruction: `b` is there exactly for the basic
    /// forms, and each resolved value carries the kind the word gives it.
    pub open spec fn is_consistent(self) -> bool {
        &&& !self.instruction.is_reserved()
        &&& self.a.argument_definition == self.instruction.operands().0
        &&& match self.instruction.operands().1 {
            Some(b) => self.b is Some && self.b.unwrap().argument_definition == b,
            None => self.b is None,
        }
    }

    /// Resolves the operands of `instruction` on `cpu`: first `a`, then `b`,
    /// each with its extra word in fetch order. Resolving may move the stack
    /// pointer (POP, PUSH).
    pub fn resolve(cpu: &mut DCPU16, instruction: Instruction) -> (r: InstructionWithOperands)
        requires
            old(cpu).wf(),
            well_formed(instruction),
        ensures
            final(cpu).wf(),
            final(cpu).image() == old(cpu).image(),
            (final(cpu).state(), r) == resolve_spec(old(cpu).state(), instruction),
            r.is_consistent(),
    {
        let (raw_instruction, instruction_word, raw_1st, raw_2nd) = instruction.unpack();
        let (a, b) = instruction_word.unpack();
        match b {
            Some(b) => {
                // The first extra word belongs to `a` only if `a` reads one;
                // otherwise it is `b`'s.
                if a.has_extra_words() {
                    let (lhs_arg, lhs) = cpu.resolve_argument(a, raw_1st);
                    let (rhs_arg, rhs) = cpu.resolve_argument(b, raw_2nd);
                    InstructionWithOperands {
                        raw_instruction,
                        instruction: instruction_word,
                        a: ResolvedValue {
                            argument_definition: a,
                            argument: lhs_arg,
                            resolved_value: lhs,
                        },
                        b: Some(
                            ResolvedValue {
                                argument_definition: b,
                                argument: rhs_arg,
                                resolved_value: rhs,
                            },
                        ),
                    }
                } else {
                    let (lhs_arg, lhs) = cpu.resolve_argument(a, None);
                    let (rhs_arg, rhs) = cpu.resolve_argument(b, raw_1st);
                    InstructionWithOperands {
                        raw_instruction,
                        instruction: instruction_word,
                        a: ResolvedValue {
                            argument_definition: a,
                            argument: lhs_arg,
                            resolved_value: lhs,
                        },
                        b: Some(
                            ResolvedValue {
                                argument_definition: b,
                                argument: rhs_arg,
                                resolved_value: rhs,
                            },
                        ),
                    }
                }
            },
            None => {
                let (lhs_arg, lhs) = cpu.resolve_argument(a, raw_1st);
                InstructionWithOperands {
                    raw_instruction,
                    instruction: instruction_word,
                    a: ResolvedValue {
                        argument_definition: a,
                        argument: lhs_arg,
                        resolved_value: lhs,
                    },
                    b: None,
                }
            },
        }
    }

    /// Gets the length of the instruction including all operands.
    pub fn length_in_words(&self) -> (r: usize)
        ensures
            r == self.instruction.words(),
    {
        self.instruction.length_in_words()
    }
}

} // verus!
