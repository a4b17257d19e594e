use vstd::prelude::*;

use crate::register::Register;
use crate::Word;

verus! {

/// Where an operand lives once it has been resolved: the site that a store
/// writes to and that a read takes its value from.
#[derive(Debug, Copy, Clone, PartialEq, Eq, Structural)]
pub enum InstructionArgument {
    /// The value of a register.
    Register(Register),
    /// A literal value; a store to it has no effect.
    Literal(Word),
    /// The value at the specified address in RAM (the stack lives in RAM too).
    Address(Word),
    /// The value in RAM at the base address plus the value of the register,
    /// modulo 2^16.
    AddressOffset {
        /// The base address.
        address: Word,
        /// The register whose value offsets the base address.
        register: Register,
    },
    /// The program counter.
    ProgramCounter,
    /// The stack pointer.
    StackPointer,
    /// The overflow register.
    Overflow,
}

impl InstructionArgument {
    /// The word that the site carries in itself, if it has one.
    pub open spec fn literal_of(self) -> Option<Word> {
        match self {
            InstructionArgument::Literal(value) => Some(value),
            InstructionArgument::Address(value) => Some(value),
            InstructionArgument::AddressOffset { address, .. } => Some(address),
            _ => None,
        }
    }

    /// Gets the literal value of the argument, if it exists: the literal itself,
    /// or the (base) address of a RAM site.
    pub fn get_literal(&self) -> (r: Option<Word>)
        ensures
            r == self.literal_of(),
    {
        match self {
            InstructionArgument::Literal(value) => Some(*value),
            InstructionArgument::Address(value) => Some(*value),
            InstructionArgument::AddressOffset { address, .. } => Some(*address),
            _ => None,
        }
    }
}

/// The kind of an operand, as a 6-bit operand field of an instruction word
/// selects it.
#[derive(Debug, Copy, Clone, PartialEq, Eq, Structural)]
pub enum InstructionArgumentDefinition {
    /// register (A, B, C, X, Y, Z, I or J, in that order)
    Register { register: Register },
    /// \[register\]
    AtAddressFromRegister { register: Register },
    /// \[next word + register\]
    AtAddressFromNextWordPlusRegister { register: Register },
    /// POP / \[SP++\]
    Pop,
    /// PEEK / \[SP\]
    Peek,
    /// PUSH / \[--SP\]
    Push,
    /// SP
    OfStackPointer,
    /// PC
    OfProgramCounter,
    /// O
    OfOverflow,
    /// \[next word\]
    AtAddressFromNextWord,
    /// next word (literal)
    NextWordLiteral,
    /// literal value 0x00-0x1f (literal)
    Literal { value: Word },
}

impl InstructionArgumentDefinition {
    /// How many words after the instruction word this operand consumes.
    pub open spec fn extra_words(self) -> nat {
        match self {
            InstructionArgumentDefinition::AtAddressFromNextWordPlusRegister { .. } => 1,
            InstructionArgumentDefinition::AtAddressFromNextWord => 1,
            InstructionArgumentDefinition::NextWordLiteral => 1,
            _ => 0,
        }
    }

    /// Whether the kind can be written in an operand field: an inline literal
    /// must fit in five bits.
    pub open spec fn is_encodable(self) -> bool {
        match self {
            InstructionArgumentDefinition::Literal { value } => value < 0x20,
            _ => true,
        }
    }

    /// The kind that the operand field `v` (in `0..0x40`) selects.
    pub open spec fn from_field(v: int) -> InstructionArgumentDefinition {
        if v < 0x08 {
            InstructionArgumentDefinition::Register { register: Register::from_index(v) }
        } else if v < 0x10 {
            InstructionArgumentDefinition::AtAddressFromRegister {
                register: Register::from_index(v - 0x08),
            }
        } else if v < 0x18 {
            InstructionArgumentDefinition::AtAddressFromNextWordPlusRegister {
                register: Register::from_index(v - 0x10),
            }
        } else if v == 0x18 {
            InstructionArgumentDefinition::Pop
        } else if v == 0x19 {
            InstructionArgumentDefinition::Peek
        } else if v == 0x1a {
            InstructionArgumentDefinition::Push
        } else if v == 0x1b {
            InstructionArgumentDefinition::OfStackPointer
        } else if v == 0x1c {
            InstructionArgumentDefinition::OfProgramCounter
        } else if v == 0x1d {
            InstructionArgumentDefinition::OfOverflow
        } else if v == 0x1e {
            InstructionArgumentDefinition::AtAddressFromNextWord
        } else if v == 0x1f {
            InstructionArgumentDefinition::NextWordLiteral
        } else {
            InstructionArgumentDefinition::Literal { value: (v - 0x20) as Word }
        }
    }

    /// The operand field that selects this kind.
    pub open spec fn field(self) -> int {
        match self {
            InstructionArgumentDefinition::Register { register } => register.index(),
            InstructionArgumentDefinition::AtAddressFromRegister { register } => 0x08
                + register.index(),
            InstructionArgumentDefinition::AtAddressFromNextWordPlusRegister { register } => 0x10
                + register.index(),
            InstructionArgumentDefinition::Pop => 0x18,
            InstructionArgumentDefinition::Peek => 0x19,
            InstructionArgumentDefinition::Push => 0x1a,
            InstructionArgumentDefinition::OfStackPointer => 0x1b,
            InstructionArgumentDefinition::OfProgramCounter => 0x1c,
            InstructionArgumentDefinition::OfOverflow => 0x1d,
            InstructionArgumentDefinition::AtAddressFromNextWord => 0x1e,
            InstructionArgumentDefinition::NextWordLiteral => 0x1f,
            InstructionArgumentDefinition::Literal { value } => 0x20 + value,
        }
    }

    /// Gets the number of extra words to read.
    pub fn num_extra_words(&self) -> (r: usize)
        ensures
            r == self.extra_words(),
    {
        match self {
            InstructionArgumentDefinition::AtAddressFromNextWordPlusRegister { .. } => 1,
            InstructionArgumentDefinition::AtAddressFromNextWord => 1,
            InstructionArgumentDefinition::NextWordLiteral => 1,
            _ => 0,
        }
    }

    /// Determines if the operand has extra words to read.
    pub fn has_extra_words(&self) -> (r: bool)
        ensures
            r == (self.extra_words() > 0),
    {
        self.num_extra_words() > 0
    }

    /// The cycles that looking the operand up costs: one for each word it reads
    /// after the instruction word.
    pub fn base_cycle_count(&self) -> (r: usize)
        ensures
            r == self.extra_words(),
    {
        self.num_extra_words()
    }

    /// Decodes the operand field `value`.
    pub fn decode(value: Word) -> (r: InstructionArgumentDefinition)
        requires
            value < 0x40,
        ensures
            r == InstructionArgumentDefinition::from_field(value as int),
    {
        if value < 0x08 {
            InstructionArgumentDefinition::Register { register: Register::with_ordinal(value) }
        } else if value < 0x10 {
            InstructionArgumentDefinition::AtAddressFromRegister {
                register: Register::with_ordinal(value - 0x08),
            }
        } else if value < 0x18 {
            InstructionArgumentDefinition::AtAddressFromNextWordPlusRegister {
                register: Register::with_ordinal(value - 0x10),
            }
        } else if value == 0x18 {
            InstructionArgumentDefinition::Pop
        } else if value == 0x19 {
            InstructionArgumentDefinition::Peek
        } else if value == 0x1a {
            InstructionArgumentDefinition::Push
        } else if value == 0x1b {
            InstructionArgumentDefinition::OfStackPointer
        } else if value == 0x1c {
            InstructionArgumentDefinition::OfProgramCounter
        } else if value == 0x1d {
            InstructionArgumentDefinition::OfOverflow
        } else if value == 0x1e {
            InstructionArgumentDefinition::AtAddressFromNextWord
        } else if value == 0x1f {
            InstructionArgumentDefinition::NextWordLiteral
        } else {
            InstructionArgumentDefinition::Literal { value: value - 0x20 }
        }
    }
}

impl From<Word> for InstructionArgumentDefinition {
    /// Decodes the low six bits of `value` as an operand field.
    fn from(value: Word) -> (r: InstructionArgumentDefinition) {
        InstructionArgumentDefinition::decode(value % 0x40)
    }
}

impl vstd::std_specs::convert::FromSpecImpl<Word> for InstructionArgumentDefinition {
    open spec fn obeys_from_spec() -> bool {
        true
    }

    open spec fn from_spec(v: Word) -> InstructionArgumentDefinition {
        InstructionArgumentDefinition::from_field((v % 0x40) as int)
    }
}

/// Decoding is total on the 64 operand fields and one to one: every field
/// decodes to an encodable kind whose field it is, and every encodable kind is
/// selected by exactly its own field.
pub proof fn lemma_operand_field_bijective(v: int, k: InstructionArgumentDefinition)
    ensures
        0 <= v < 0x40 ==> InstructionArgumentDefinition::from_field(v).is_encodable()
            && InstructionArgumentDefinition::from_field(v).field() == v,
        k.is_encodable() ==> 0 <= k.field() < 0x40 && InstructionArgumentDefinition::from_field(
            k.field(),
        ) == k,
{
    crate::register::lemma_register_ordinals(Register::A, v);
    crate::register::lemma_register_ordinals(Register::A, v - 0x08);
    crate::register::lemma_register_ordinals(Register::A, v - 0x10);
    match k {
        InstructionArgumentDefinition::Register { register } => {
            crate::register::lemma_register_ordinals(register, 0);
        },
        InstructionArgumentDefinition::AtAddressFromRegister { register } => {
            crate::register::lemma_register_ordinals(register, 0);
        },
        InstructionArgumentDefinition::AtAddressFromNextWordPlusRegister { register } => {
            crate::register::lemma_register_ordinals(register, 0);
        },
        _ => {},
    }
}

} // verus!
