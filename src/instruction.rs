use vstd::prelude::*;

use crate::instruction_argument::InstructionArgumentDefinition;
use crate::Word;

verus! {

/// A decoded instruction with the raw words that followed it in the program.
#[derive(Debug, Copy, Clone, PartialEq, Eq, Structural)]
pub enum Instruction {
    /// An instruction that has one word, i.e., does not take extra operands.
    OneWord {
        /// The decoded instruction word.
        instruction: InstructionWord,
        /// The raw word of the instruction.
        raw_instruction: Word,
    },
    /// An instruction that has two words, i.e., takes one extra operand.
    TwoWord {
        /// The decoded instruction word.
        instruction: InstructionWord,
        /// The raw word of the instruction.
        raw_instruction: Word,
        /// The first extra operand.
        raw_1st: Word,
    },
    /// An instruction that has three words, i.e., takes two extra operands.
    ThreeWord {
        /// The decoded instruction word.
        instruction: InstructionWord,
        /// The raw word of the instruction.
        raw_instruction: Word,
        /// The first extra operand.
        raw_1st: Word,
        /// The second extra operand.
        raw_2nd: Word,
    },
}

impl Instruction {
    /// The decoded word, the raw word and the extra words, as `unpack` gives them.
    pub open spec fn parts(self) -> (Word, InstructionWord, Option<Word>, Option<Word>) {
        match self {
            Instruction::OneWord { raw_instruction, instruction } => (
                raw_instruction,
                instruction,
                None,
                None,
            ),
            Instruction::TwoWord { raw_instruction, instruction, raw_1st } => (
                raw_instruction,
                instruction,
                Some(raw_1st),
                None,
            ),
            Instruction::ThreeWord { raw_instruction, instruction, raw_1st, raw_2nd } => (
                raw_instruction,
                instruction,
                Some(raw_1st),
                Some(raw_2nd),
            ),
        }
    }

    /// The number of raw words the value holds.
    pub open spec fn word_count(self) -> nat {
        match self {
            Instruction::OneWord { .. } => 1,
            Instruction::TwoWord { .. } => 2,
            Instruction::ThreeWord { .. } => 3,
        }
    }

    /// Extracts the values of the instruction into a tuple.
    pub fn unpack(&self) -> (r: (Word, InstructionWord, Option<Word>, Option<Word>))
        ensures
            r == self.parts(),
    {
        match self {
            Instruction::OneWord { raw_instruction, instruction } => (
                *raw_instruction,
                *instruction,
                None,
                None,
            ),
            Instruction::TwoWord { raw_instruction, instruction, raw_1st } => (
                *raw_instruction,
                *instruction,
                Some(*raw_1st),
                None,
            ),
            Instruction::ThreeWord { raw_instruction, instruction, raw_1st, raw_2nd } => (
                *raw_instruction,
                *instruction,
                Some(*raw_1st),
                Some(*raw_2nd),
            ),
        }
    }
}

/// A decoded instruction word: the operation and the kinds of its operands.
#[derive(Debug, Copy, Clone, PartialEq, Eq, Structural)]
pub enum InstructionWord {
    /// Non-basic instruction.
    NonBasic(NonBasicInstruction),
    /// Sets `a` to `b`.
    SetValue { a: InstructionArgumentDefinition, b: InstructionArgumentDefinition },
    /// Sets `a` to `a+b`, sets `O` to `0x0001` if there's an overflow, `0x0` otherwise.
    Add { a: InstructionArgumentDefinition, b: InstructionArgumentDefinition },
    /// Sets `a` to `a-b`, sets `O` to `0xffff` if there's an underflow, `0x0` otherwise.
    Sub { a: InstructionArgumentDefinition, b: InstructionArgumentDefinition },
    /// Sets `a` to `a*b`, sets `O` to `((a*b)>>16)&0xffff`.
    Mul { a: InstructionArgumentDefinition, b: InstructionArgumentDefinition },
    /// Sets `a` to `a/b`, sets `O` to `((a<<16)/b)&0xffff`; if `b==0`, sets `a` and `O` to `0`.
    Div { a: InstructionArgumentDefinition, b: InstructionArgumentDefinition },
    /// Sets `a` to `a%b`; if `b==0`, sets `a` to `0`.
    Mod { a: InstructionArgumentDefinition, b: InstructionArgumentDefinition },
    /// Sets `a` to `a<<b`, sets `O` to `((a<<b)>>16)&0xffff`.
    Shl { a: InstructionArgumentDefinition, b: InstructionArgumentDefinition },
    /// Sets `a` to `a>>b`, sets `O` to `((a<<16)>>b)&0xffff`.
    Shr { a: InstructionArgumentDefinition, b: InstructionArgumentDefinition },
    /// Sets `a` to `a&b`.
    And { a: InstructionArgumentDefinition, b: InstructionArgumentDefinition },
    /// Sets `a` to `a|b`.
    Bor { a: InstructionArgumentDefinition, b: InstructionArgumentDefinition },
    /// Sets `a` to `a^b`.
    Xor { a: InstructionArgumentDefinition, b: InstructionArgumentDefinition },
    /// Performs next instruction only if `a==b`.
    Ife { a: InstructionArgumentDefinition, b: InstructionArgumentDefinition },
    /// Performs next instruction only if `a!=b`.
    Ifn { a: InstructionArgumentDefinition, b: InstructionArgumentDefinition },
    /// Performs next instruction only if `a>b`.
    Ifg { a: InstructionArgumentDefinition, b: InstructionArgumentDefinition },
    /// Performs next instruction only if `(a&b)!=0`.
    Ifb { a: InstructionArgumentDefinition, b: InstructionArgumentDefinition },
}

/// Non-basic instructions have their low four bits unset, a six-bit opcode in
/// the `a` field and their one operand in the `b` field: `aaaaaaoooooo0000`.
#[derive(Debug, Copy, Clone, PartialEq, Eq, Structural)]
pub enum NonBasicInstruction {
    /// Reserved for future expansion.
    Reserved,
    /// Pushes the address of the next instruction to the stack, then sets `PC` to `a`.
    Jsr { a: InstructionArgumentDefinition },
}

/// The low four bits of an instruction word: the basic opcode.
pub open spec fn opcode_field(w: Word) -> int {
    w as int % 16
}

/// Bits 4 to 9 of an instruction word: the `a` field.
pub open spec fn a_field(w: Word) -> int {
    (w as int / 16) % 64
}

/// Bits 10 to 15 of an instruction word: the `b` field.
pub open spec fn b_field(w: Word) -> int {
    w as int / 1024
}

impl NonBasicInstruction {
    /// The non-basic instruction that the word `w` holds.
    pub open spec fn decoded(w: Word) -> NonBasicInstruction {
        if a_field(w) == 0x01 {
            NonBasicInstruction::Jsr { a: InstructionArgumentDefinition::from_field(b_field(w)) }
        } else {
            NonBasicInstruction::Reserved
        }
    }

    /// Words that follow the instruction word.
    pub open spec fn extra_words(self) -> nat {
        match self {
            NonBasicInstruction::Reserved => 0,
            NonBasicInstruction::Jsr { a } => a.extra_words(),
        }
    }

    /// Gets the number of words the operand takes after the instruction word.
    pub fn length_in_words(&self) -> (r: usize)
        ensures
            r == self.extra_words(),
    {
        match self {
            NonBasicInstruction::Reserved => 0,
            NonBasicInstruction::Jsr { a } => a.num_extra_words(),
        }
    }

    /// Unpacks the operand into a first value and an absent second value.
    pub fn unpack(&self) -> (r: (InstructionArgumentDefinition, Option<InstructionArgumentDefinition>))
        requires
            *self != NonBasicInstruction::Reserved,
        ensures
            r == (self->a, None::<InstructionArgumentDefinition>),
    {
        match self {
            NonBasicInstruction::Jsr { a } => (*a, None),
            NonBasicInstruction::Reserved => (InstructionArgumentDefinition::Literal { value: 0 }, None),
        }
    }
}

impl InstructionWord {
    /// The basic instruction with opcode `op` (in `1..16`) and operands `a`, `b`.
    pub open spec fn basic(
        op: int,
        a: InstructionArgumentDefinition,
        b: InstructionArgumentDefinition,
    ) -> InstructionWord {
        if op == 0x1 {
            InstructionWord::SetValue { a, b }
        } else if op == 0x2 {
            InstructionWord::Add { a, b }
        } else if op == 0x3 {
            InstructionWord::Sub { a, b }
        } else if op == 0x4 {
            InstructionWord::Mul { a, b }
        } else if op == 0x5 {
            InstructionWord::Div { a, b }
        } else if op == 0x6 {
            InstructionWord::Mod { a, b }
        } else if op == 0x7 {
            InstructionWord::Shl { a, b }
        } else if op == 0x8 {
            InstructionWord::Shr { a, b }
        } else if op == 0x9 {
            InstructionWord::And { a, b }
        } else if op == 0xa {
            InstructionWord::Bor { a, b }
        } else if op == 0xb {
            InstructionWord::Xor { a, b }
        } else if op == 0xc {
            InstructionWord::Ife { a, b }
        } else if op == 0xd {
            InstructionWord::Ifn { a, b }
        } else if op == 0xe {
            InstructionWord::Ifg { a, b }
        } else {
            InstructionWord::Ifb { a, b }
        }
    }

    /// The instruction that the word `w` encodes.
    pub open spec fn decoded(w: Word) -> InstructionWord {
        if opcode_field(w) == 0 {
            InstructionWord::NonBasic(NonBasicInstruction::decoded(w))
        } else {
            InstructionWord::basic(
                opcode_field(w),
                InstructionArgumentDefinition::from_field(a_field(w)),
                InstructionArgumentDefinition::from_field(b_field(w)),
            )
        }
    }

    /// The opcode in the low four bits: 0 for the non-basic form.
    pub open spec fn opcode(self) -> int {
        match self {
            InstructionWord::NonBasic(_) => 0x0,
            InstructionWord::SetValue { .. } => 0x1,
            InstructionWord::Add { .. } => 0x2,
            InstructionWord::Sub { .. } => 0x3,
            InstructionWord::Mul { .. } => 0x4,
            InstructionWord::Div { .. } => 0x5,
            InstructionWord::Mod { .. } => 0x6,
            InstructionWord::Shl { .. } => 0x7,
            InstructionWord::Shr { .. } => 0x8,
            InstructionWord::And { .. } => 0x9,
            InstructionWord::Bor { .. } => 0xa,
            InstructionWord::Xor { .. } => 0xb,
            InstructionWord::Ife { .. } => 0xc,
            InstructionWord::Ifn { .. } => 0xd,
            InstructionWord::Ifg { .. } => 0xe,
            InstructionWord::Ifb { .. } => 0xf,
        }
    }

    /// Whether this is the reserved non-basic form, which cannot be executed.
    pub open spec fn is_reserved(self) -> bool {
        self == InstructionWord::NonBasic(NonBasicInstruction::Reserved)
    }

    /// The operand kinds: `a`, and `b` for the basic forms.
    pub open spec fn operands(self) -> (InstructionArgumentDefinition, Option<InstructionArgumentDefinition>) {
        match self {
            InstructionWord::NonBasic(nbi) => match nbi {
                NonBasicInstruction::Jsr { a } => (a, None),
                NonBasicInstruction::Reserved => (
                    InstructionArgumentDefinition::Literal { value: 0 },
                    None,
                ),
            },
            InstructionWord::SetValue { a, b } => (a, Some(b)),
            InstructionWord::Add { a, b } => (a, Some(b)),
            InstructionWord::Sub { a, b } => (a, Some(b)),
            InstructionWord::Mul { a, b } => (a, Some(b)),
            InstructionWord::Div { a, b } => (a, Some(b)),
            InstructionWord::Mod { a, b } => (a, Some(b)),
            InstructionWord::Shl { a, b } => (a, Some(b)),
            InstructionWord::Shr { a, b } => (a, Some(b)),
            InstructionWord::And { a, b } => (a, Some(b)),
            InstructionWord::Bor { a, b } => (a, Some(b)),
            InstructionWord::Xor { a, b } => (a, Some(b)),
            InstructionWord::Ife { a, b } => (a, Some(b)),
            InstructionWord::Ifn { a, b } => (a, Some(b)),
            InstructionWord::Ifg { a, b } => (a, Some(b)),
            InstructionWord::Ifb { a, b } => (a, Some(b)),
        }
    }

    /// The length of the instruction in words: the instruction word itself and
    /// one more for each operand that reads an extra word.
    pub open spec fn words(self) -> nat {
        match self {
            InstructionWord::NonBasic(nbi) => 1 + nbi.extra_words(),
            _ => 1 + self.operands().0.extra_words() + self.operands().1.unwrap().extra_words(),
        }
    }

    /// The instruction word that encodes this instruction.
    pub open spec fn encoding(self) -> int {
        match self {
            InstructionWord::NonBasic(nbi) => match nbi {
                NonBasicInstruction::Jsr { a } => 0x01 * 16 + a.field() * 1024,
                NonBasicInstruction::Reserved => 0,
            },
            _ => self.opcode() + self.operands().0.field() * 16 + self.operands().1.unwrap().field()
                * 1024,
        }
    }

    /// Gets the length of the instruction in words.
    pub fn length_in_words(&self) -> (r: usize)
        ensures
            r == self.words(),
            1 <= r <= 3,
    {
        let len_from_values = match self {
            InstructionWord::NonBasic(op) => op.length_in_words(),
            InstructionWord::SetValue { a, b } => a.num_extra_words() + b.num_extra_words(),
            InstructionWord::Add { a, b } => a.num_extra_words() + b.num_extra_words(),
            InstructionWord::Sub { a, b } => a.num_extra_words() + b.num_extra_words(),
            InstructionWord::Mul { a, b } => a.num_extra_words() + b.num_extra_words(),
            InstructionWord::Div { a, b } => a.num_extra_words() + b.num_extra_words(),
            InstructionWord::Mod { a, b } => a.num_extra_words() + b.num_extra_words(),
            InstructionWord::Shl { a, b } => a.num_extra_words() + b.num_extra_words(),
            InstructionWord::Shr { a, b } => a.num_extra_words() + b.num_extra_words(),
            InstructionWord::And { a, b } => a.num_extra_words() + b.num_extra_words(),
            InstructionWord::Bor { a, b } => a.num_extra_words() + b.num_extra_words(),
            InstructionWord::Xor { a, b } => a.num_extra_words() + b.num_extra_words(),
            InstructionWord::Ife { a, b } => a.num_extra_words() + b.num_extra_words(),
            InstructionWord::Ifn { a, b } => a.num_extra_words() + b.num_extra_words(),
            InstructionWord::Ifg { a, b } => a.num_extra_words() + b.num_extra_words(),
            InstructionWord::Ifb { a, b } => a.num_extra_words() + b.num_extra_words(),
        };
        // One more for the instruction word itself.
        1 + len_from_values
    }

    /// Unpacks the operand kinds into a first value and an optional second value.
    pub fn unpack(&self) -> (r: (InstructionArgumentDefinition, Option<InstructionArgumentDefinition>))
        requires
            !self.is_reserved(),
        ensures
            r == self.operands(),
    {
        match self {
            InstructionWord::NonBasic(op) => op.unpack(),
            InstructionWord::SetValue { a, b } => (*a, Some(*b)),
            InstructionWord::Add { a, b } => (*a, Some(*b)),
            InstructionWord::Sub { a, b } => (*a, Some(*b)),
            InstructionWord::Mul { a, b } => (*a, Some(*b)),
            InstructionWord::Div { a, b } => (*a, Some(*b)),
            InstructionWord::Mod { a, b } => (*a, Some(*b)),
            InstructionWord::Shl { a, b } => (*a, Some(*b)),
            InstructionWord::Shr { a, b } => (*a, Some(*b)),
            InstructionWord::And { a, b } => (*a, Some(*b)),
            InstructionWord::Bor { a, b } => (*a, Some(*b)),
            InstructionWord::Xor { a, b } => (*a, Some(*b)),
            InstructionWord::Ife { a, b } => (*a, Some(*b)),
            InstructionWord::Ifn { a, b } => (*a, Some(*b)),
            InstructionWord::Ifg { a, b } => (*a, Some(*b)),
            InstructionWord::Ifb { a, b } => (*a, Some(*b)),
        }
    }
}

impl From<Word> for NonBasicInstruction {
    /// Decodes the non-basic instruction from the `a` and `b` fields of `value`.
    fn from(value: Word) -> (r: NonBasicInstruction) {
        let opcode = (value / 16) % 64;
        if opcode == 0x01 {
            NonBasicInstruction::Jsr { a: InstructionArgumentDefinition::decode(value / 1024) }
        } else {
            NonBasicInstruction::Reserved
        }
    }
}

impl vstd::std_specs::convert::FromSpecImpl<Word> for NonBasicInstruction {
    open spec fn obeys_from_spec() -> bool {
        true
    }

    open spec fn from_spec(v: Word) -> NonBasicInstruction {
        NonBasicInstruction::decoded(v)
    }
}

impl From<Word> for InstructionWord {
    /// Decodes an instruction word.
    fn from(value: Word) -> (r: InstructionWord) {
        let opcode = value % 16;
        let a = InstructionArgumentDefinition::decode((value / 16) % 64);
        let b = InstructionArgumentDefinition::decode(value / 1024);
        if opcode == 0x0 {
            InstructionWord::NonBasic(NonBasicInstruction::from(value))
        } else if opcode == 0x1 {
            InstructionWord::SetValue { a, b }
        } else if opcode == 0x2 {
            InstructionWord::Add { a, b }
        } else if opcode == 0x3 {
            InstructionWord::Sub { a, b }
        } else if opcode == 0x4 {
            InstructionWord::Mul { a, b }
        } else if opcode == 0x5 {
            InstructionWord::Div { a, b }
        } else if opcode == 0x6 {
            InstructionWord::Mod { a, b }
        } else if opcode == 0x7 {
            InstructionWord::Shl { a, b }
        } else if opcode == 0x8 {
            InstructionWord::Shr { a, b }
        } else if opcode == 0x9 {
            InstructionWord::And { a, b }
        } else if opcode == 0xa {
            InstructionWord::Bor { a, b }
        } else if opcode == 0xb {
            InstructionWord::Xor { a, b }
        } else if opcode == 0xc {
            InstructionWord::Ife { a, b }
        } else if opcode == 0xd {
            InstructionWord::Ifn { a, b }
        } else if opcode == 0xe {
            InstructionWord::Ifg { a, b }
        } else {
            InstructionWord::Ifb { a, b }
        }
    }
}

impl vstd::std_specs::convert::FromSpecImpl<Word> for InstructionWord {
    open spec fn obeys_from_spec() -> bool {
        true
    }

    open spec fn from_spec(v: Word) -> InstructionWord {
        InstructionWord::decoded(v)
    }
}

impl InstructionWord {
    /// Whether this is the reserved non-basic form.
    pub fn is_reserved_instruction(&self) -> (r: bool)
        ensures
            r == self.is_reserved(),
    {
        match self {
            InstructionWord::NonBasic(NonBasicInstruction::Reserved) => true,
            _ => false,
        }
    }

    /// Decodes the instruction word `value`.
    pub fn decode(value: Word) -> (r: InstructionWord)
        ensures
            r == InstructionWord::decoded(value),
    {
        InstructionWord::from(value)
    }
}

/// The bit layout of a basic instruction word, `op | (af << 4) | (bf << 10)`, is
/// the sum `op + af * 16 + bf * 1024`.
pub proof fn lemma_word_layout(op: u16, af: u16, bf: u16)
    requires
        op < 16,
        af < 64,
        bf < 64,
    ensures
        op | (af << 4) | (bf << 10) == op + af * 16 + bf * 1024,
{
    assert(op | (af << 4) | (bf << 10) == op + af * 16 + bf * 1024) by (bit_vector)
        requires
            op < 16,
            af < 64,
            bf < 64,
    ;
}

/// Decoding a basic instruction word `op | (af << 4) | (bf << 10)` yields the
/// mnemonic of `op` with the kinds that `af` and `bf` select, and encoding the
/// result gives the word back.
pub proof fn lemma_decode_round_trip(op: u16, af: u16, bf: u16)
    requires
        1 <= op < 16,
        af < 64,
        bf < 64,
    ensures
        InstructionWord::decoded(op | (af << 4) | (bf << 10)) == InstructionWord::basic(
            op as int,
            InstructionArgumentDefinition::from_field(af as int),
            InstructionArgumentDefinition::from_field(bf as int),
        ),
        InstructionWord::decoded(op | (af << 4) | (bf << 10)).opcode() == op,
        InstructionWord::decoded(op | (af << 4) | (bf << 10)).encoding() == (op | (af << 4) | (
        bf << 10)),
{
    lemma_word_layout(op, af, bf);
    let w = op | (af << 4) | (bf << 10);
    assert(opcode_field(w) == op);
    assert(a_field(w) == af);
    assert(b_field(w) == bf);
    crate::instruction_argument::lemma_operand_field_bijective(
        af as int,
        InstructionArgumentDefinition::Pop,
    );
    crate::instruction_argument::lemma_operand_field_bijective(
        bf as int,
        InstructionArgumentDefinition::Pop,
    );
}

/// An instruction's length is one word plus the extra words of its operands.
pub proof fn lemma_length(w: InstructionWord)
    requires
        !w.is_reserved(),
    ensures
        w.words() == 1 + w.operands().0.extra_words() + match w.operands().1 {
            Some(b) => b.extra_words(),
            None => 0,
        },
        1 <= w.words() <= 3,
{
}

} // verus!
