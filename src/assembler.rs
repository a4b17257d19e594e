//! Turns source text into a program image.
//!
//! After parsing, label references are linked to label indices. Each
//! instruction is then materialized (encoded) against the current label
//! addresses. A label operand is written as a literal, which takes a word of its
//! own unless it is at most 0x1f, so an instruction's length depends on label
//! addresses that in turn depend on the lengths of the instructions before
//! them. The size resolver starts from the shortest encodings and repeats passes
//! over the instructions, growing or shrinking each whose length changed and
//! moving the labels after it, until a pass changes nothing.
use vstd::prelude::*;
use vstd::string::StringSliceAdditionalSpecFns;

use crate::instruction::{InstructionWord, NonBasicInstruction};
use crate::instruction_argument::InstructionArgumentDefinition;
use crate::lexer::{lex, lex_spec, Token};
use crate::parser::{
    get_meta_instructions,
    parse_spec,
    statement_in,
    statements_in,
    token_bytes,
    tokens_in,
    AssembleError,
    ParsedArgument,
    Statement,
    BasicOperationName,
    NonBasicOperationName,
    Operand,
    SpecialRegister,
    StackOperation,
};
use crate::Word;

verus! {

/// An operand with label references linked.
#[derive(Debug, Copy, Clone, PartialEq, Eq, Structural)]
pub enum Argument {
    /// An operand known from the source alone.
    Static(Operand),
    /// A reference to the label with this index, in order of definition.
    LabelReference(usize),
}

/// An instruction with label references linked.
#[derive(Debug, Copy, Clone, PartialEq, Eq, Structural)]
pub enum SourceInstruction {
    /// A basic (two-operand) instruction; the destination is never a label.
    BasicInstruction(BasicOperationName, Operand, Argument),
    /// A non-basic (one-operand) instruction.
    NonBasicInstruction(NonBasicOperationName, Argument),
}

/// The encoding of one operand: the six bits in the instruction word, and the
/// word that follows the instruction, if any.
#[derive(Debug, Copy, Clone, PartialEq, Eq, Structural)]
pub struct MaterializedValue {
    pub inline: u16,
    pub literal: Option<Word>,
}

/// An instruction encoded against some label addresses.
#[derive(Debug, Copy, Clone, PartialEq, Eq, Structural)]
pub struct MaterializedInstruction {
    /// The instruction word.
    pub instruction_word: Word,
    /// The first extra word.
    pub arg1: Option<Word>,
    /// The second extra word.
    pub arg2: Option<Word>,
}

impl BasicOperationName {
    /// The opcode, `1..16`.
    pub open spec fn opcode(self) -> int {
        match self {
            BasicOperationName::SET => 0x1,
            BasicOperationName::ADD => 0x2,
            BasicOperationName::SUB => 0x3,
            BasicOperationName::MUL => 0x4,
            BasicOperationName::DIV => 0x5,
            BasicOperationName::MOD => 0x6,
            BasicOperationName::SHL => 0x7,
            BasicOperationName::SHR => 0x8,
            BasicOperationName::AND => 0x9,
            BasicOperationName::BOR => 0xa,
            BasicOperationName::XOR => 0xb,
            BasicOperationName::IFE => 0xc,
            BasicOperationName::IFN => 0xd,
            BasicOperationName::IFG => 0xe,
            BasicOperationName::IFB => 0xf,
        }
    }
}

/// The operand kind that an operand is encoded as.
pub open spec fn kind_of(op: Operand) -> InstructionArgumentDefinition {
    match op {
        Operand::Register(r) => InstructionArgumentDefinition::Register { register: r },
        Operand::AddressFromRegister(r) => InstructionArgumentDefinition::AtAddressFromRegister {
            register: r,
        },
        Operand::AddressOffset { register, .. } =>
            InstructionArgumentDefinition::AtAddressFromNextWordPlusRegister { register },
        Operand::StackOperation(s) => match s {
            StackOperation::Pop => InstructionArgumentDefinition::Pop,
            StackOperation::Peek => InstructionArgumentDefinition::Peek,
            StackOperation::Push => InstructionArgumentDefinition::Push,
        },
        Operand::SpecialRegister(s) => match s {
            SpecialRegister::StackPointer => InstructionArgumentDefinition::OfStackPointer,
            SpecialRegister::ProgramCounter => InstructionArgumentDefinition::OfProgramCounter,
            SpecialRegister::Overflow => InstructionArgumentDefinition::OfOverflow,
        },
        Operand::Address(_) => InstructionArgumentDefinition::AtAddressFromNextWord,
        Operand::Literal(w) => if w > 0x1f {
            InstructionArgumentDefinition::NextWordLiteral
        } else {
            InstructionArgumentDefinition::Literal { value: w }
        },
    }
}

/// The word an operand carries after the instruction, if its kind reads one.
pub open spec fn extra_of(op: Operand) -> Option<Word> {
    match op {
        Operand::AddressOffset { address, .. } => Some(address),
        Operand::Address(w) => Some(w),
        Operand::Literal(w) => if w > 0x1f {
            Some(w)
        } else {
            None
        },
        _ => None,
    }
}

/// The encoding of an operand: the field of its kind and its extra word.
pub open spec fn bake_spec(op: Operand) -> MaterializedValue {
    MaterializedValue { inline: kind_of(op).field() as u16, literal: extra_of(op) }
}

/// The operand an argument stands for once labels have the addresses `addrs`:
/// a label is the literal of its address.
pub open spec fn argument_operand(arg: Argument, addrs: Seq<Word>) -> Operand {
    match arg {
        Argument::Static(op) => op,
        Argument::LabelReference(id) => Operand::Literal(addrs[id as int]),
    }
}

/// The label indices an instruction refers to are below `count`.
pub open spec fn refers_below(ins: SourceInstruction, count: nat) -> bool {
    match ins {
        SourceInstruction::BasicInstruction(_, _, b) => match b {
            Argument::LabelReference(id) => id < count,
            _ => true,
        },
        SourceInstruction::NonBasicInstruction(_, a) => match a {
            Argument::LabelReference(id) => id < count,
            _ => true,
        },
    }
}

/// The decoded instruction an instruction should come back as once labels
/// have the addresses `addrs`.
pub open spec fn expected_word(ins: SourceInstruction, addrs: Seq<Word>) -> InstructionWord {
    match ins {
        SourceInstruction::BasicInstruction(op, a, b) => InstructionWord::basic(
            op.opcode(),
            kind_of(a),
            kind_of(argument_operand(b, addrs)),
        ),
        SourceInstruction::NonBasicInstruction(_, a) => InstructionWord::NonBasic(
            NonBasicInstruction::Jsr { a: kind_of(argument_operand(a, addrs)) },
        ),
    }
}

/// The encoding of an instruction against the label addresses `addrs`.
pub open spec fn materialize_spec(ins: SourceInstruction, addrs: Seq<Word>) -> MaterializedInstruction {
    match ins {
        SourceInstruction::BasicInstruction(op, a, b) => {
            let ba = bake_spec(a);
            let bb = bake_spec(argument_operand(b, addrs));
            let word = (op.opcode() + ba.inline * 16 + bb.inline * 1024) as Word;
            if ba.literal is Some {
                MaterializedInstruction { instruction_word: word, arg1: ba.literal, arg2: bb.literal }
            } else {
                MaterializedInstruction { instruction_word: word, arg1: bb.literal, arg2: None }
            }
        },
        SourceInstruction::NonBasicInstruction(_, a) => {
            let ba = bake_spec(argument_operand(a, addrs));
            MaterializedInstruction {
                instruction_word: (0x01 * 16 + ba.inline * 1024) as Word,
                arg1: ba.literal,
                arg2: None,
            }
        },
    }
}

/// `Some(w)` as one word, `None` as none.
pub open spec fn optional_word(w: Option<Word>) -> Seq<Word> {
    match w {
        Some(w) => seq![w],
        None => Seq::empty(),
    }
}

impl MaterializedInstruction {
    /// The words of the instruction, in fetch order.
    pub open spec fn words(self) -> Seq<Word> {
        seq![self.instruction_word] + optional_word(self.arg1) + optional_word(self.arg2)
    }

    /// The length in words.
    pub fn len(&self) -> (r: usize)
        ensures
            r == self.words().len(),
            1 <= r <= 3,
    {
        let mut size: usize = 1;
        if self.arg1.is_some() {
            size += 1;
        }
        if self.arg2.is_some() {
            size += 1;
        }
        size
    }
}

impl Operand {
    /// Encodes the operand.
    pub fn bake(&self) -> (r: MaterializedValue)
        ensures
            r == bake_spec(*self),
    {
        match self {
            Operand::Register(register) => MaterializedValue {
                inline: register.ordinal() as u16,
                literal: None,
            },
            Operand::AddressFromRegister(register) => MaterializedValue {
                inline: register.ordinal() as u16 + 0x08,
                literal: None,
            },
            Operand::AddressOffset { address, register } => MaterializedValue {
                inline: register.ordinal() as u16 + 0x10,
                literal: Some(*address),
            },
            Operand::StackOperation(op) => match op {
                StackOperation::Pop => MaterializedValue { inline: 0x18, literal: None },
                StackOperation::Peek => MaterializedValue { inline: 0x19, literal: None },
                StackOperation::Push => MaterializedValue { inline: 0x1a, literal: None },
            },
            Operand::SpecialRegister(sr) => match sr {
                SpecialRegister::StackPointer => MaterializedValue { inline: 0x1b, literal: None },
                SpecialRegister::ProgramCounter => MaterializedValue {
                    inline: 0x1c,
                    literal: None,
                },
                SpecialRegister::Overflow => MaterializedValue { inline: 0x1d, literal: None },
            },
            Operand::Address(word) => MaterializedValue { inline: 0x1e, literal: Some(*word) },
            Operand::Literal(word) => {
                if *word > 0x1f {
                    MaterializedValue { inline: 0x1f, literal: Some(*word) }
                } else {
                    MaterializedValue { inline: *word + 0x20, literal: None }
                }
            },
        }
    }
}

/// Every operand encodes to a field below 0x40, and its kind reads an extra
/// word exactly when the encoding has one.
pub proof fn lemma_bake_bounds(op: Operand)
    ensures
        0 <= kind_of(op).field() < 0x40,
        kind_of(op).is_encodable(),
        (kind_of(op).extra_words() == 1) == (extra_of(op) is Some),
        kind_of(op).extra_words() <= 1,
{
    match op {
        Operand::Register(r) => crate::register::lemma_register_ordinals(r, 0),
        Operand::AddressFromRegister(r) => crate::register::lemma_register_ordinals(r, 0),
        Operand::AddressOffset { register, .. } => crate::register::lemma_register_ordinals(
            register,
            0,
        ),
        _ => {},
    }
}

impl BasicOperationName {
    /// Encodes a basic instruction with operands `a` and `b`: the instruction
    /// word `opcode | (a << 4) | (b << 10)` and the extra words in fetch order.
    pub fn bake(&self, a: Operand, b: Operand) -> (r: (Word, Option<Word>, Option<Word>))
        ensures
            ({
                let m = materialize_spec(
                    SourceInstruction::BasicInstruction(*self, a, Argument::Static(b)),
                    Seq::empty(),
                );
                r == (m.instruction_word, m.arg1, m.arg2)
            }),
    {
        let opcode: u16 = match self {
            BasicOperationName::SET => 0x1,
            BasicOperationName::ADD => 0x2,
            BasicOperationName::SUB => 0x3,
            BasicOperationName::MUL => 0x4,
            BasicOperationName::DIV => 0x5,
            BasicOperationName::MOD => 0x6,
            BasicOperationName::SHL => 0x7,
            BasicOperationName::SHR => 0x8,
            BasicOperationName::AND => 0x9,
            BasicOperationName::BOR => 0xA,
            BasicOperationName::XOR => 0xB,
            BasicOperationName::IFE => 0xC,
            BasicOperationName::IFN => 0xD,
            BasicOperationName::IFG => 0xE,
            BasicOperationName::IFB => 0xF,
        };
        let a_baked = a.bake();
        let b_baked = b.bake();
        proof {
            lemma_bake_bounds(a);
            lemma_bake_bounds(b);
        }
        let instruction: Word = opcode + a_baked.inline * 16 + b_baked.inline * 1024;
        if a_baked.literal.is_some() {
            (instruction, a_baked.literal, b_baked.literal)
        } else {
            (instruction, b_baked.literal, None)
        }
    }
}

impl NonBasicOperationName {
    /// Encodes a non-basic instruction with operand `a`: the sub-opcode in the
    /// `a` field, the operand in the `b` field.
    pub fn bake(&self, a: Operand) -> (r: (Word, Option<Word>))
        ensures
            ({
                let m = materialize_spec(
                    SourceInstruction::NonBasicInstruction(*self, Argument::Static(a)),
                    Seq::empty(),
                );
                r == (m.instruction_word, m.arg1)
            }),
    {
        let opcode: u16 = match self {
            NonBasicOperationName::JSR => 0x1,
        };
        let a_baked = a.bake();
        proof {
            lemma_bake_bounds(a);
        }
        (opcode * 16 + a_baked.inline * 1024, a_baked.literal)
    }
}

impl SourceInstruction {
    /// Encodes the instruction against the label addresses `label_map`.
    pub fn materialize(&self, label_map: &Vec<Word>) -> (r: MaterializedInstruction)
        requires
            refers_below(*self, label_map@.len()),
        ensures
            r == materialize_spec(*self, label_map@),
    {
        match self {
            SourceInstruction::NonBasicInstruction(nbi, a) => {
                let arg = match a {
                    Argument::Static(arg) => *arg,
                    Argument::LabelReference(id) => Operand::Literal(label_map[*id]),
                };
                let (opcode, arg1) = nbi.bake(arg);
                MaterializedInstruction { instruction_word: opcode, arg1, arg2: None }
            },
            SourceInstruction::BasicInstruction(bi, a, b) => {
                let arg2 = match b {
                    Argument::Static(arg) => *arg,
                    Argument::LabelReference(id) => Operand::Literal(label_map[*id]),
                };
                let (opcode, arg1, arg2) = bi.bake(*a, arg2);
                MaterializedInstruction { instruction_word: opcode, arg1, arg2 }
            },
        }
    }
}

/// The three fields of `op + af * 16 + bf * 1024`.
proof fn lemma_fields(op: int, af: int, bf: int)
    requires
        0 <= op < 16,
        0 <= af < 64,
        0 <= bf < 64,
    ensures
        0 <= op + af * 16 + bf * 1024 < 0x10000,
        crate::instruction::opcode_field((op + af * 16 + bf * 1024) as Word) == op,
        crate::instruction::a_field((op + af * 16 + bf * 1024) as Word) == af,
        crate::instruction::b_field((op + af * 16 + bf * 1024) as Word) == bf,
{
    let w = op + af * 16 + bf * 1024;
    assert(0 <= w < 0x10000) by (nonlinear_arith)
        requires
            0 <= op < 16,
            0 <= af < 64,
            0 <= bf < 64,
            w == op + af * 16 + bf * 1024,
    ;
    assert(w % 16 == op && w / 16 == af + bf * 64) by (nonlinear_arith)
        requires
            0 <= op < 16,
            0 <= af < 64,
            0 <= bf < 64,
            w == op + af * 16 + bf * 1024,
    ;
    assert((af + bf * 64) % 64 == af) by (nonlinear_arith)
        requires
            0 <= af < 64,
            0 <= bf < 64,
    ;
    assert(w / 1024 == bf) by (nonlinear_arith)
        requires
            0 <= op < 16,
            0 <= af < 64,
            0 <= bf < 64,
            w == op + af * 16 + bf * 1024,
    ;
}

proof fn lemma_basic_decodes(op: BasicOperationName, a: Operand, b: Operand)
    ensures
        ({
            let m = materialize_spec(
                SourceInstruction::BasicInstruction(op, a, Argument::Static(b)),
                Seq::empty(),
            );
            &&& InstructionWord::decoded(m.instruction_word) == InstructionWord::basic(
                op.opcode(),
                kind_of(a),
                kind_of(b),
            )
            &&& m.words().len() == InstructionWord::basic(op.opcode(), kind_of(a), kind_of(b)).words()
            &&& m.words().subrange(1, m.words().len() as int) == optional_word(extra_of(a))
                + optional_word(extra_of(b))
        }),
{
    lemma_bake_bounds(a);
    lemma_bake_bounds(b);
    lemma_fields(op.opcode(), kind_of(a).field(), kind_of(b).field());
    crate::instruction_argument::lemma_operand_field_bijective(0, kind_of(a));
    crate::instruction_argument::lemma_operand_field_bijective(0, kind_of(b));
    let m = materialize_spec(
        SourceInstruction::BasicInstruction(op, a, Argument::Static(b)),
        Seq::empty(),
    );
    assert(m.words().subrange(1, m.words().len() as int) =~= optional_word(extra_of(a))
        + optional_word(extra_of(b)));
}

proof fn lemma_nonbasic_decodes(op: NonBasicOperationName, a: Operand)
    ensures
        ({
            let m = materialize_spec(
                SourceInstruction::NonBasicInstruction(op, Argument::Static(a)),
                Seq::empty(),
            );
            &&& InstructionWord::decoded(m.instruction_word) == InstructionWord::NonBasic(
                NonBasicInstruction::Jsr { a: kind_of(a) },
            )
            &&& m.words().len() == InstructionWord::NonBasic(
                NonBasicInstruction::Jsr { a: kind_of(a) },
            ).words()
            &&& m.words().subrange(1, m.words().len() as int) == optional_word(extra_of(a))
        }),
{
    lemma_bake_bounds(a);
    lemma_fields(0, 1, kind_of(a).field());
    crate::instruction_argument::lemma_operand_field_bijective(0, kind_of(a));
    let m = materialize_spec(
        SourceInstruction::NonBasicInstruction(op, Argument::Static(a)),
        Seq::empty(),
    );
    assert(m.words().subrange(1, m.words().len() as int) =~= optional_word(extra_of(a)));
}

/// The operands' words of an instruction once labels have addresses `addrs`,
/// in fetch order.
pub open spec fn operand_words_of(ins: SourceInstruction, addrs: Seq<Word>) -> Seq<Word> {
    match ins {
        SourceInstruction::BasicInstruction(_, a, b) => optional_word(extra_of(a)) + optional_word(
            extra_of(argument_operand(b, addrs)),
        ),
        SourceInstruction::NonBasicInstruction(_, a) => optional_word(
            extra_of(argument_operand(a, addrs)),
        ),
    }
}

/// An encoded instruction decodes to the instruction it encodes, with each
/// label operand the literal of its address, and its extra words are the
/// operands' words in fetch order.
pub proof fn lemma_materialized_decodes(ins: SourceInstruction, addrs: Seq<Word>)
    ensures
        InstructionWord::decoded(materialize_spec(ins, addrs).instruction_word) == expected_word(
            ins,
            addrs,
        ),
        materialize_spec(ins, addrs).words().len() == expected_word(ins, addrs).words(),
        materialize_spec(ins, addrs).words().subrange(
            1,
            materialize_spec(ins, addrs).words().len() as int,
        ) == operand_words_of(ins, addrs),
{
    match ins {
        SourceInstruction::BasicInstruction(op, a, b) => {
            let b1 = argument_operand(b, addrs);
            lemma_basic_decodes(op, a, b1);
            assert(materialize_spec(ins, addrs) == materialize_spec(
                SourceInstruction::BasicInstruction(op, a, Argument::Static(b1)),
                Seq::empty(),
            ));
        },
        SourceInstruction::NonBasicInstruction(op, a) => {
            let a1 = argument_operand(a, addrs);
            lemma_nonbasic_decodes(op, a1);
            assert(materialize_spec(ins, addrs) == materialize_spec(
                SourceInstruction::NonBasicInstruction(op, Argument::Static(a1)),
                Seq::empty(),
            ));
        },
    }
}

/// The name tokens of the label definitions among `stmts`, in order.
pub open spec fn label_tokens(stmts: Seq<Statement>) -> Seq<usize>
    decreases stmts.len(),
{
    if stmts.len() == 0 {
        Seq::empty()
    } else {
        match stmts.last() {
            Statement::Label { token } => label_tokens(stmts.drop_last()).push(token),
            _ => label_tokens(stmts.drop_last()),
        }
    }
}

/// The number of instructions among `stmts`.
pub open spec fn instruction_count(stmts: Seq<Statement>) -> nat
    decreases stmts.len(),
{
    if stmts.len() == 0 {
        0
    } else {
        match stmts.last() {
            Statement::Label { .. } => instruction_count(stmts.drop_last()),
            _ => instruction_count(stmts.drop_last()) + 1,
        }
    }
}

/// For each label definition among `stmts`, the number of instructions before it.
pub open spec fn label_positions(stmts: Seq<Statement>) -> Seq<usize>
    decreases stmts.len(),
{
    if stmts.len() == 0 {
        Seq::empty()
    } else {
        match stmts.last() {
            Statement::Label { .. } => label_positions(stmts.drop_last()).push(
                instruction_count(stmts.drop_last()) as usize,
            ),
            _ => label_positions(stmts.drop_last()),
        }
    }
}

/// The name of the token at index `t`.
pub open spec fn name_at(src: Seq<u8>, toks: Seq<Token>, t: usize) -> Seq<u8> {
    token_bytes(src, toks[t as int])
}

/// The first label from index `i` on whose name is `name`.
pub open spec fn find_label_from(
    src: Seq<u8>,
    toks: Seq<Token>,
    labels: Seq<usize>,
    name: Seq<u8>,
    i: int,
) -> Option<int>
    decreases labels.len() - i,
{
    if i < 0 || i >= labels.len() {
        None
    } else if name_at(src, toks, labels[i]) == name {
        Some(i)
    } else {
        find_label_from(src, toks, labels, name, i + 1)
    }
}

/// The first label from index `j` on that has the name of a label before it.
pub open spec fn first_duplicate_from(
    src: Seq<u8>,
    toks: Seq<Token>,
    labels: Seq<usize>,
    j: int,
) -> Option<int>
    decreases labels.len() - j,
{
    if j < 0 || j >= labels.len() {
        None
    } else if exists|i: int| 0 <= i < j && name_at(src, toks, labels[i]) == name_at(src, toks, labels[j]) {
        Some(j)
    } else {
        first_duplicate_from(src, toks, labels, j + 1)
    }
}

/// An operand as written, with its label linked to the label's index.
pub open spec fn link_argument_spec(
    src: Seq<u8>,
    toks: Seq<Token>,
    labels: Seq<usize>,
    arg: ParsedArgument,
) -> Result<Argument, AssembleError> {
    match arg {
        ParsedArgument::Static(op) => Ok(Argument::Static(op)),
        ParsedArgument::Label { token } => match find_label_from(
            src,
            toks,
            labels,
            name_at(src, toks, token),
            0,
        ) {
            Some(id) => Ok(Argument::LabelReference(id as usize)),
            None => Err(AssembleError::UndefinedLabel { token }),
        },
    }
}

/// The instructions among `stmts` with their labels linked, or the first
/// reference to an undefined label.
pub open spec fn link_statements(
    src: Seq<u8>,
    toks: Seq<Token>,
    labels: Seq<usize>,
    stmts: Seq<Statement>,
) -> Result<Seq<SourceInstruction>, AssembleError>
    decreases stmts.len(),
{
    if stmts.len() == 0 {
        Ok(Seq::empty())
    } else {
        match link_statements(src, toks, labels, stmts.drop_last()) {
            Err(e) => Err(e),
            Ok(done) => match stmts.last() {
                Statement::Label { .. } => Ok(done),
                Statement::Basic { operation, a, b } => match link_argument_spec(
                    src,
                    toks,
                    labels,
                    b,
                ) {
                    Err(e) => Err(e),
                    Ok(b) => Ok(done.push(SourceInstruction::BasicInstruction(operation, a, b))),
                },
                Statement::NonBasic { operation, a } => match link_argument_spec(
                    src,
                    toks,
                    labels,
                    a,
                ) {
                    Err(e) => Err(e),
                    Ok(a) => Ok(done.push(SourceInstruction::NonBasicInstruction(operation, a))),
                },
            },
        }
    }
}

/// The program that `stmts` describe: its instructions, and for each label the
/// number of instructions before it; or the first label defined twice, or the
/// first reference to an undefined label.
pub open spec fn link_spec(src: Seq<u8>, toks: Seq<Token>, stmts: Seq<Statement>) -> Result<
    (Seq<SourceInstruction>, Seq<usize>),
    AssembleError,
> {
    let labels = label_tokens(stmts);
    match first_duplicate_from(src, toks, labels, 0) {
        Some(j) => Err(AssembleError::DuplicateLabel { token: labels[j] }),
        None => match link_statements(src, toks, labels, stmts) {
            Err(e) => Err(e),
            Ok(instrs) => Ok((instrs, label_positions(stmts))),
        },
    }
}

/// Whether the tokens `t1` and `t2` are the same name.
fn names_equal(src: &[u8], toks: &[Token], t1: usize, t2: usize) -> (r: bool)
    requires
        tokens_in(src@, toks@),
        t1 < toks@.len(),
        t2 < toks@.len(),
        toks@[t1 as int] is Name,
        toks@[t2 as int] is Name,
    ensures
        r == (name_at(src@, toks@, t1) == name_at(src@, toks@, t2)),
{
    let (s1, e1) = match toks[t1] {
        Token::Name { start, end } => (start, end),
        _ => (0, 0),
    };
    let (s2, e2) = match toks[t2] {
        Token::Name { start, end } => (start, end),
        _ => (0, 0),
    };
    assert(toks@[t1 as int] == (Token::Name { start: s1, end: e1 }));
    assert(toks@[t2 as int] == (Token::Name { start: s2, end: e2 }));
    let ghost n1 = name_at(src@, toks@, t1);
    let ghost n2 = name_at(src@, toks@, t2);
    assert(n1 == src@.subrange(s1 as int, e1 as int));
    assert(n2 == src@.subrange(s2 as int, e2 as int));
    assert(s1 < e1 <= src@.len() && s2 < e2 <= src@.len());
    if e1 - s1 != e2 - s2 {
        assert(n1.len() != n2.len());
        return false;
    }
    let mut i: usize = 0;
    while i < e1 - s1
        invariant
            s1 < e1 <= src@.len(),
            s2 < e2 <= src@.len(),
            e1 - s1 == e2 - s2,
            n1 == src@.subrange(s1 as int, e1 as int),
            n2 == src@.subrange(s2 as int, e2 as int),
            n1 == name_at(src@, toks@, t1),
            n2 == name_at(src@, toks@, t2),
            i <= e1 - s1,
            forall|j: int| 0 <= j < i ==> n1[j] == n2[j],
        decreases e1 - s1 - i,
    {
        if src[s1 + i] != src[s2 + i] {
            assert(n1[i as int] != n2[i as int]);
            return false;
        }
        i = i + 1;
    }
    assert(n1 =~= n2);
    true
}

/// The label definitions among `stmts`: their name tokens, and for each the
/// number of instructions before it.
fn collect_labels(stmts: &Vec<Statement>) -> (r: (Vec<usize>, Vec<usize>))
    ensures
        r.0@ == label_tokens(stmts@),
        r.1@ == label_positions(stmts@),
        r.1@.len() == r.0@.len(),
        forall|i: int| 0 <= i < r.1@.len() ==> r.1@[i] <= instruction_count(stmts@),
{
    let mut tokens: Vec<usize> = Vec::new();
    let mut positions: Vec<usize> = Vec::new();
    let mut count: usize = 0;
    let mut i: usize = 0;
    while i < stmts.len()
        invariant
            i <= stmts@.len(),
            tokens@ == label_tokens(stmts@.subrange(0, i as int)),
            positions@ == label_positions(stmts@.subrange(0, i as int)),
            count == instruction_count(stmts@.subrange(0, i as int)),
            count <= i,
            positions@.len() == tokens@.len(),
            forall|j: int| 0 <= j < positions@.len() ==> positions@[j] <= count,
        decreases stmts@.len() - i,
    {
        let ghost prefix = stmts@.subrange(0, i + 1);
        assert(prefix.drop_last() =~= stmts@.subrange(0, i as int));
        match stmts[i] {
            Statement::Label { token } => {
                tokens.push(token);
                positions.push(count);
            },
            _ => {
                count = count + 1;
            },
        }
        i = i + 1;
    }
    assert(stmts@.subrange(0, stmts@.len() as int) =~= stmts@);
    (tokens, positions)
}

/// The first label that has the name of a label before it.
fn check_duplicates(src: &[u8], toks: &[Token], labels: &Vec<usize>) -> (r: Option<usize>)
    requires
        tokens_in(src@, toks@),
        forall|i: int| 0 <= i < labels@.len() ==> labels@[i] < toks@.len() && toks@[#[trigger] labels@[i] as int] is Name,
    ensures
        match r {
            Some(j) => first_duplicate_from(src@, toks@, labels@, 0) == Some(j as int) && j < labels@.len(),
            None => first_duplicate_from(src@, toks@, labels@, 0) is None,
        },
{
    let mut j: usize = 0;
    while j < labels.len()
        invariant
            j <= labels@.len(),
            tokens_in(src@, toks@),
            forall|i: int| 0 <= i < labels@.len() ==> labels@[i] < toks@.len() && toks@[#[trigger] labels@[i] as int] is Name,
            first_duplicate_from(src@, toks@, labels@, 0) == first_duplicate_from(src@, toks@, labels@, j as int),
        decreases labels@.len() - j,
    {
        let mut i: usize = 0;
        while i < j
            invariant
                i <= j < labels@.len(),
                tokens_in(src@, toks@),
                forall|k: int| 0 <= k < labels@.len() ==> labels@[k] < toks@.len() && toks@[#[trigger] labels@[k] as int] is Name,
                forall|k: int| 0 <= k < i ==> name_at(src@, toks@, labels@[k]) != name_at(src@, toks@, labels@[j as int]),
                first_duplicate_from(src@, toks@, labels@, 0) == first_duplicate_from(src@, toks@, labels@, j as int),
            decreases j - i,
        {
            if names_equal(src, toks, labels[i], labels[j]) {
                assert(exists|k: int| 0 <= k < j && name_at(src@, toks@, labels@[k]) == name_at(src@, toks@, labels@[j as int])) by {
                    assert(0 <= i < j && name_at(src@, toks@, labels@[i as int]) == name_at(src@, toks@, labels@[j as int]));
                }
                return Some(j);
            }
            i = i + 1;
        }
        assert(!exists|k: int| 0 <= k < j && name_at(src@, toks@, labels@[k]) == name_at(src@, toks@, labels@[j as int]));
        j = j + 1;
    }
    None
}

/// The first label whose name is that of the token `t`.
fn find_label(src: &[u8], toks: &[Token], labels: &Vec<usize>, t: usize) -> (r: Option<usize>)
    requires
        tokens_in(src@, toks@),
        forall|i: int| 0 <= i < labels@.len() ==> labels@[i] < toks@.len() && toks@[#[trigger] labels@[i] as int] is Name,
        t < toks@.len(),
        toks@[t as int] is Name,
    ensures
        match r {
            Some(id) => find_label_from(src@, toks@, labels@, name_at(src@, toks@, t), 0) == Some(id as int) && id < labels@.len(),
            None => find_label_from(src@, toks@, labels@, name_at(src@, toks@, t), 0) is None,
        },
{
    let mut i: usize = 0;
    while i < labels.len()
        invariant
            i <= labels@.len(),
            tokens_in(src@, toks@),
            forall|k: int| 0 <= k < labels@.len() ==> labels@[k] < toks@.len() && toks@[#[trigger] labels@[k] as int] is Name,
            t < toks@.len(),
            toks@[t as int] is Name,
            find_label_from(src@, toks@, labels@, name_at(src@, toks@, t), 0) == find_label_from(src@, toks@, labels@, name_at(src@, toks@, t), i as int),
        decreases labels@.len() - i,
    {
        if names_equal(src, toks, labels[i], t) {
            return Some(i);
        }
        i = i + 1;
    }
    None
}

/// Links the label of an operand, if it has one.
fn link_argument(src: &[u8], toks: &[Token], labels: &Vec<usize>, arg: ParsedArgument) -> (r: Result<Argument, AssembleError>)
    requires
        tokens_in(src@, toks@),
        forall|i: int| 0 <= i < labels@.len() ==> labels@[i] < toks@.len() && toks@[#[trigger] labels@[i] as int] is Name,
        arg matches ParsedArgument::Label { token } ==> token < toks@.len() && toks@[token as int] is Name,
    ensures
        r == link_argument_spec(src@, toks@, labels@, arg),
        r matches Ok(Argument::LabelReference(id)) ==> id < labels@.len(),
{
    match arg {
        ParsedArgument::Static(op) => Ok(Argument::Static(op)),
        ParsedArgument::Label { token } => match find_label(src, toks, labels, token) {
            Some(id) => Ok(Argument::LabelReference(id)),
            None => Err(AssembleError::UndefinedLabel { token }),
        },
    }
}

/// Links the program that `stmts` describe: its instructions with label
/// references turned into label indices, and for each label the number of
/// instructions before it.
pub fn link(src: &[u8], toks: &[Token], stmts: &Vec<Statement>) -> (r: Result<(Vec<SourceInstruction>, Vec<usize>), AssembleError>)
    requires
        tokens_in(src@, toks@),
        statements_in(toks@, stmts@),
    ensures
        match r {
            Ok((instrs, positions)) => link_spec(src@, toks@, stmts@) == Ok::<(Seq<SourceInstruction>, Seq<usize>), AssembleError>((instrs@, positions@))
                && positions@.len() == label_tokens(stmts@).len()
                && (forall|i: int| 0 <= i < instrs@.len() ==> refers_below(#[trigger] instrs@[i], positions@.len()))
                && (forall|i: int| 0 <= i < positions@.len() ==> #[trigger] positions@[i] <= instrs@.len()),
            Err(e) => link_spec(src@, toks@, stmts@) == Err::<(Seq<SourceInstruction>, Seq<usize>), AssembleError>(e),
        },
{
    let (labels, positions) = collect_labels(stmts);
    proof {
        lemma_label_tokens_in(toks@, stmts@);
    }
    if let Some(j) = check_duplicates(src, toks, &labels) {
        return Err(AssembleError::DuplicateLabel { token: labels[j] });
    }
    let mut instrs: Vec<SourceInstruction> = Vec::new();
    let mut i: usize = 0;
    while i < stmts.len()
        invariant
            i <= stmts@.len(),
            tokens_in(src@, toks@),
            statements_in(toks@, stmts@),
            labels@ == label_tokens(stmts@),
            positions@ == label_positions(stmts@),
            positions@.len() == labels@.len(),
            first_duplicate_from(src@, toks@, labels@, 0) is None,
            forall|k: int| 0 <= k < labels@.len() ==> labels@[k] < toks@.len() && toks@[#[trigger] labels@[k] as int] is Name,
            link_statements(src@, toks@, labels@, stmts@.subrange(0, i as int)) == Ok::<Seq<SourceInstruction>, AssembleError>(instrs@),
            instrs@.len() == instruction_count(stmts@.subrange(0, i as int)),
            forall|k: int| 0 <= k < instrs@.len() ==> refers_below(#[trigger] instrs@[k], labels@.len()),
        decreases stmts@.len() - i,
    {
        let ghost prefix = stmts@.subrange(0, i + 1);
        assert(prefix.drop_last() =~= stmts@.subrange(0, i as int));
        let st = stmts[i];
        assert(st == stmts@[i as int]);
        assert(prefix.last() == st);
        match st {
            Statement::Label { .. } => {},
            Statement::Basic { operation, a, b } => {
                let b = match link_argument(src, toks, &labels, b) {
                    Ok(b) => b,
                    Err(e) => {
                        proof {
                            lemma_link_error_stays(src@, toks@, labels@, stmts@, i as int + 1);
                        }
                        return Err(e);
                    },
                };
                instrs.push(SourceInstruction::BasicInstruction(operation, a, b));
            },
            Statement::NonBasic { operation, a } => {
                let a = match link_argument(src, toks, &labels, a) {
                    Ok(a) => a,
                    Err(e) => {
                        proof {
                            lemma_link_error_stays(src@, toks@, labels@, stmts@, i as int + 1);
                        }
                        return Err(e);
                    },
                };
                instrs.push(SourceInstruction::NonBasicInstruction(operation, a));
            },
        }
        i = i + 1;
    }
    assert(stmts@.subrange(0, stmts@.len() as int) =~= stmts@);
    Ok((instrs, positions))
}

/// Label name tokens of the statements are name tokens.
proof fn lemma_label_tokens_in(toks: Seq<Token>, stmts: Seq<Statement>)
    requires
        statements_in(toks, stmts),
    ensures
        forall|k: int| 0 <= k < label_tokens(stmts).len() ==> label_tokens(stmts)[k] < toks.len()
            && toks[#[trigger] label_tokens(stmts)[k] as int] is Name,
    decreases stmts.len(),
{
    if stmts.len() > 0 {
        assert forall|i: int| 0 <= i < stmts.drop_last().len() implies statement_in(
            toks,
            #[trigger] stmts.drop_last()[i],
        ) by {
            assert(stmts.drop_last()[i] == stmts[i]);
        }
        lemma_label_tokens_in(toks, stmts.drop_last());
        assert(statement_in(toks, stmts[stmts.len() - 1]));
    }
}

/// Once linking fails on a prefix, it fails with the same error on every
/// longer prefix.
proof fn lemma_link_error_stays(
    src: Seq<u8>,
    toks: Seq<Token>,
    labels: Seq<usize>,
    stmts: Seq<Statement>,
    i: int,
)
    requires
        0 <= i <= stmts.len(),
        link_statements(src, toks, labels, stmts.subrange(0, i)) is Err,
    ensures
        link_statements(src, toks, labels, stmts) == link_statements(src, toks, labels, stmts.subrange(0, i)),
    decreases stmts.len() - i,
{
    if i < stmts.len() {
        let next = stmts.subrange(0, i + 1);
        assert(next.drop_last() =~= stmts.subrange(0, i));
        lemma_link_error_stays(src, toks, labels, stmts, i + 1);
    } else {
        assert(stmts.subrange(0, i) =~= stmts);
    }
}

/// The number of words of `mats[0..k]`: where instruction `k` starts.
pub open spec fn prefix_len(mats: Seq<MaterializedInstruction>, k: int) -> int
    decreases k,
{
    if k <= 0 {
        0
    } else {
        prefix_len(mats, k - 1) + mats[k - 1].words().len()
    }
}

/// Every instruction encoded against the label addresses `addrs`.
pub open spec fn materialize_all(instrs: Seq<SourceInstruction>, addrs: Seq<Word>) -> Seq<
    MaterializedInstruction,
> {
    Seq::new(instrs.len(), |i: int| materialize_spec(instrs[i], addrs))
}

/// The words of the encoded instructions, one after the other.
pub open spec fn emit_spec(mats: Seq<MaterializedInstruction>) -> Seq<Word>
    decreases mats.len(),
{
    if mats.len() == 0 {
        Seq::empty()
    } else {
        emit_spec(mats.drop_last()) + mats.last().words()
    }
}

/// Each label's address is where the instruction it precedes starts in the
/// layout `mats`.
pub open spec fn labels_placed(
    mats: Seq<MaterializedInstruction>,
    positions: Seq<usize>,
    addrs: Seq<Word>,
) -> bool {
    &&& addrs.len() == positions.len()
    &&& forall|l: int| 0 <= l < positions.len() ==> addrs[l] == prefix_len(mats, #[trigger] positions[l] as int)
}

/// Label addresses that are a fixed point: with every instruction encoded
/// against them, each label lands exactly on its address.
pub open spec fn settled(instrs: Seq<SourceInstruction>, positions: Seq<usize>, addrs: Seq<Word>) -> bool {
    labels_placed(materialize_all(instrs, addrs), positions, addrs)
}

proof fn lemma_prefix_bounds(mats: Seq<MaterializedInstruction>, j: int, k: int)
    requires
        0 <= j <= k <= mats.len(),
    ensures
        0 <= prefix_len(mats, j) <= prefix_len(mats, k),
        j < k ==> prefix_len(mats, j) + mats[j].words().len() <= prefix_len(mats, k),
        prefix_len(mats, k) - prefix_len(mats, j) >= k - j,
    decreases k,
{
    if k > 0 {
        if j < k {
            lemma_prefix_bounds(mats, j, k - 1);
        } else {
            lemma_prefix_bounds(mats, k - 1, k - 1);
        }
    }
}

/// Replacing instruction `i` moves everything after it by the change in length.
proof fn lemma_prefix_update(mats: Seq<MaterializedInstruction>, i: int, m: MaterializedInstruction, k: int)
    requires
        0 <= i < mats.len(),
        0 <= k <= mats.len(),
    ensures
        prefix_len(mats.update(i, m), k) == prefix_len(mats, k) + if k > i {
            m.words().len() - mats[i].words().len()
        } else {
            0
        },
    decreases k,
{
    if k > 0 {
        lemma_prefix_update(mats, i, m, k - 1);
    }
}

/// The words of instruction `k` lie in the emitted image from where it starts.
proof fn lemma_emit_slice(mats: Seq<MaterializedInstruction>, k: int)
    requires
        0 <= k < mats.len(),
    ensures
        emit_spec(mats).len() == prefix_len(mats, mats.len() as int),
        emit_spec(mats).subrange(prefix_len(mats, k), prefix_len(mats, k + 1)) == mats[k].words(),
    decreases mats.len(),
{
    let last = mats.len() - 1;
    lemma_emit_len(mats.drop_last());
    lemma_prefix_same(mats, mats.drop_last(), last);
    if k < last {
        lemma_emit_slice(mats.drop_last(), k);
        lemma_prefix_same(mats, mats.drop_last(), k + 1);
        lemma_prefix_same(mats, mats.drop_last(), k);
        lemma_prefix_bounds(mats.drop_last(), k, k + 1);
        lemma_prefix_bounds(mats.drop_last(), k + 1, last);
        assert(emit_spec(mats).subrange(prefix_len(mats, k), prefix_len(mats, k + 1)) =~= emit_spec(
            mats.drop_last(),
        ).subrange(prefix_len(mats, k), prefix_len(mats, k + 1)));
    } else {
        assert(emit_spec(mats).subrange(prefix_len(mats, k), prefix_len(mats, k + 1)) =~= mats[k].words());
    }
}

proof fn lemma_emit_len(mats: Seq<MaterializedInstruction>)
    ensures
        emit_spec(mats).len() == prefix_len(mats, mats.len() as int),
    decreases mats.len(),
{
    if mats.len() > 0 {
        lemma_emit_len(mats.drop_last());
        lemma_prefix_same(mats, mats.drop_last(), mats.len() - 1);
    }
}

/// Prefix lengths depend only on the instructions before.
proof fn lemma_prefix_same(a: Seq<MaterializedInstruction>, b: Seq<MaterializedInstruction>, k: int)
    requires
        0 <= k <= a.len(),
        k <= b.len(),
        forall|j: int| 0 <= j < k ==> a[j] == b[j],
    ensures
        prefix_len(a, k) == prefix_len(b, k),
    decreases k,
{
    if k > 0 {
        lemma_prefix_same(a, b, k - 1);
    }
}

/// The assembled program, decoded: with label addresses that are a fixed
/// point, the words of instruction `k` start where the labels before it say,
/// decode to the instruction with each label operand the literal of its
/// address, and carry its operands' words in fetch order.
pub proof fn lemma_assembled_program_decodes(
    instrs: Seq<SourceInstruction>,
    positions: Seq<usize>,
    addrs: Seq<Word>,
    k: int,
)
    requires
        settled(instrs, positions, addrs),
        0 <= k < instrs.len(),
    ensures
        ({
            let mats = materialize_all(instrs, addrs);
            let image = emit_spec(mats);
            let start = prefix_len(mats, k);
            let end = prefix_len(mats, k + 1);
            &&& forall|l: int| 0 <= l < positions.len() ==> addrs[l] == prefix_len(mats, #[trigger] positions[l] as int)
            &&& 0 <= start < end <= image.len()
            &&& InstructionWord::decoded(image[start]) == expected_word(instrs[k], addrs)
            &&& end - start == expected_word(instrs[k], addrs).words()
            &&& image.subrange(start + 1, end) == operand_words_of(instrs[k], addrs)
        }),
{
    let mats = materialize_all(instrs, addrs);
    lemma_emit_slice(mats, k);
    lemma_prefix_bounds(mats, k, k + 1);
    lemma_prefix_bounds(mats, k + 1, mats.len() as int);
    lemma_materialized_decodes(instrs[k], addrs);
    let image = emit_spec(mats);
    let start = prefix_len(mats, k);
    let end = prefix_len(mats, k + 1);
    assert(image[start] == image.subrange(start, end)[0]);
    assert(image.subrange(start + 1, end) =~= image.subrange(start, end).subrange(1, end - start));
}

/// Appends the words of an instruction to the image.
fn write_instruction_word_into_bytestream(
    bytestream: &mut Vec<Word>,
    instruction_word: Word,
    arg1: Option<Word>,
    arg2: Option<Word>,
)
    ensures
        final(bytestream)@ == old(bytestream)@ + (MaterializedInstruction {
            instruction_word,
            arg1,
            arg2,
        }).words(),
{
    bytestream.push(instruction_word);
    if let Some(word) = arg1 {
        bytestream.push(word);
    }
    if let Some(word) = arg2 {
        bytestream.push(word);
    }
    assert(final(bytestream)@ =~= old(bytestream)@ + (MaterializedInstruction {
        instruction_word,
        arg1,
        arg2,
    }).words());
}

/// Encodes an instruction one last time against the final label addresses and
/// appends its words to the image.
fn write_materialized_instruction_into_bytestream(
    bytestream: &mut Vec<Word>,
    entry: &SourceInstruction,
    label_map: &Vec<Word>,
)
    requires
        refers_below(*entry, label_map@.len()),
    ensures
        final(bytestream)@ == old(bytestream)@ + materialize_spec(*entry, label_map@).words(),
{
    let m = entry.materialize(label_map);
    write_instruction_word_into_bytestream(bytestream, m.instruction_word, m.arg1, m.arg2);
}

/// The length of an instruction encoded against `addrs`.
pub open spec fn demand(ins: SourceInstruction, addrs: Seq<Word>) -> nat {
    materialize_spec(ins, addrs).words().len()
}

/// No instruction of the layout `mats` is longer than the label addresses
/// `addrs` make it.
pub open spec fn within_demand(
    mats: Seq<MaterializedInstruction>,
    instrs: Seq<SourceInstruction>,
    addrs: Seq<Word>,
) -> bool {
    &&& mats.len() == instrs.len()
    &&& forall|j: int| 0 <= j < mats.len() ==> #[trigger] mats[j].words().len() <= demand(instrs[j], addrs)
}

/// Later label addresses never make an instruction shorter.
proof fn lemma_demand_monotone(ins: SourceInstruction, m1: Seq<Word>, m2: Seq<Word>)
    requires
        refers_below(ins, m1.len()),
        m1.len() == m2.len(),
        forall|k: int| 0 <= k < m1.len() ==> m1[k] <= m2[k],
    ensures
        demand(ins, m1) <= demand(ins, m2),
{
}

/// Growing label addresses keep a layout within demand.
proof fn lemma_within_demand_grows(
    mats: Seq<MaterializedInstruction>,
    instrs: Seq<SourceInstruction>,
    m1: Seq<Word>,
    m2: Seq<Word>,
)
    requires
        within_demand(mats, instrs, m1),
        forall|j: int| 0 <= j < instrs.len() ==> refers_below(#[trigger] instrs[j], m1.len()),
        m1.len() == m2.len(),
        forall|k: int| 0 <= k < m1.len() ==> m1[k] <= m2[k],
    ensures
        within_demand(mats, instrs, m2),
{
    assert forall|j: int| 0 <= j < mats.len() implies #[trigger] mats[j].words().len() <= demand(
        instrs[j],
        m2,
    ) by {
        lemma_demand_monotone(instrs[j], m1, m2);
    }
}

/// An instruction takes at most three words, so `k` instructions at most `3k`.
proof fn lemma_prefix_at_most(mats: Seq<MaterializedInstruction>, k: int)
    requires
        0 <= k <= mats.len(),
    ensures
        prefix_len(mats, k) <= 3 * k,
    decreases k,
{
    if k > 0 {
        lemma_prefix_at_most(mats, k - 1);
    }
}

/// The largest program image.
pub const MAX_PROGRAM_WORDS: usize = 0xffff;

/// Label addresses that are a fixed point and whose image fits in
/// `MAX_PROGRAM_WORDS` words.
pub open spec fn fitting_layout(instrs: Seq<SourceInstruction>, positions: Seq<usize>, addrs: Seq<Word>) -> bool {
    &&& settled(instrs, positions, addrs)
    &&& prefix_len(materialize_all(instrs, addrs), instrs.len() as int) <= MAX_PROGRAM_WORDS
}

/// No instruction of `mats` is longer than in any fitting fixed point.
pub open spec fn under_every_layout(
    mats: Seq<MaterializedInstruction>,
    instrs: Seq<SourceInstruction>,
    positions: Seq<usize>,
) -> bool {
    forall|a: Seq<Word>| #[trigger] fitting_layout(instrs, positions, a) ==> within_demand(mats, instrs, a)
}

/// Shorter instructions start no later.
proof fn lemma_prefix_le(m1: Seq<MaterializedInstruction>, m2: Seq<MaterializedInstruction>, k: int)
    requires
        0 <= k <= m1.len(),
        k <= m2.len(),
        forall|j: int| 0 <= j < k ==> m1[j].words().len() <= m2[j].words().len(),
    ensures
        prefix_len(m1, k) <= prefix_len(m2, k),
    decreases k,
{
    if k > 0 {
        lemma_prefix_le(m1, m2, k - 1);
    }
}

/// Labels placed in a layout no longer than a fixed point lie at or below its
/// addresses.
proof fn lemma_map_below(
    mats: Seq<MaterializedInstruction>,
    instrs: Seq<SourceInstruction>,
    positions: Seq<usize>,
    map: Seq<Word>,
    a: Seq<Word>,
)
    requires
        labels_placed(mats, positions, map),
        within_demand(mats, instrs, a),
        settled(instrs, positions, a),
        forall|p: int| 0 <= p < positions.len() ==> #[trigger] positions[p] <= instrs.len(),
    ensures
        map.len() == a.len(),
        forall|k: int| 0 <= k < map.len() ==> map[k] <= a[k],
{
    let all = materialize_all(instrs, a);
    assert forall|k: int| 0 <= k < map.len() implies map[k] <= a[k] by {
        let p = positions[k] as int;
        assert(map[k] == prefix_len(mats, positions[k] as int));
        assert(a[k] == prefix_len(all, positions[k] as int));
        assert forall|j: int| 0 <= j < p implies mats[j].words().len() <= all[j].words().len() by {
            assert(mats[j].words().len() <= demand(instrs[j], a));
        }
        lemma_prefix_le(mats, all, p);
    }
}

/// A layout no longer than every fitting fixed point, that runs past
/// `MAX_PROGRAM_WORDS` words, leaves no fitting fixed point.
proof fn lemma_no_fitting_layout(
    mats: Seq<MaterializedInstruction>,
    instrs: Seq<SourceInstruction>,
    positions: Seq<usize>,
    k: int,
)
    requires
        0 <= k <= mats.len(),
        k <= instrs.len(),
        forall|a: Seq<Word>| #[trigger] fitting_layout(instrs, positions, a) ==> forall|j: int|
            0 <= j < k ==> #[trigger] mats[j].words().len() <= demand(instrs[j], a),
        prefix_len(mats, k) > MAX_PROGRAM_WORDS,
    ensures
        forall|a: Seq<Word>| !fitting_layout(instrs, positions, a),
{
    assert forall|a: Seq<Word>| !fitting_layout(instrs, positions, a) by {
        if fitting_layout(instrs, positions, a) {
            let all = materialize_all(instrs, a);
            assert forall|j: int| 0 <= j < k implies mats[j].words().len() <= all[j].words().len() by {
                assert(mats[j].words().len() <= demand(instrs[j], a));
            }
            lemma_prefix_le(mats, all, k);
            lemma_prefix_bounds(all, k, instrs.len() as int);
        }
    }
}

/// Lays the instructions out: finds label addresses that are a fixed point,
/// starting from the shortest encodings, and returns the image with them.
fn resolve_sizes(instrs: &Vec<SourceInstruction>, positions: &Vec<usize>) -> (r: Result<
    (Vec<Word>, Vec<Word>),
    AssembleError,
>)
    requires
        forall|i: int| 0 <= i < instrs@.len() ==> refers_below(#[trigger] instrs@[i], positions@.len()),
        forall|l: int| 0 <= l < positions@.len() ==> #[trigger] positions@[l] <= instrs@.len(),
    ensures
        match r {
            Ok((image, addrs)) => settled(instrs@, positions@, addrs@) && image@ == emit_spec(
                materialize_all(instrs@, addrs@),
            ) && image@.len() <= MAX_PROGRAM_WORDS && under_every_layout(
                materialize_all(instrs@, addrs@),
                instrs@,
                positions@,
            ),
            Err(e) => e == AssembleError::ProgramTooLong && forall|a: Seq<Word>| !fitting_layout(instrs@, positions@, a),
        },
{
    let n = instrs.len();
    let nl = positions.len();
    // Every label at address 0: each label operand takes its short form.
    let mut label_map: Vec<Word> = Vec::new();
    let mut l: usize = 0;
    while l < nl
        invariant
            l <= nl == positions@.len(),
            label_map@.len() == l,
            forall|k: int| 0 <= k < l ==> label_map@[k] == 0,
        decreases nl - l,
    {
        label_map.push(0);
        l = l + 1;
    }
    let ghost zeros = label_map@;
    let mut mats: Vec<MaterializedInstruction> = Vec::new();
    let mut total: usize = 0;
    let mut i: usize = 0;
    while i < n
        invariant
            i <= n == instrs@.len(),
            label_map@.len() == nl == positions@.len(),
            forall|j: int| 0 <= j < instrs@.len() ==> refers_below(#[trigger] instrs@[j], positions@.len()),
            mats@.len() == i,
            total == prefix_len(mats@, i as int),
            total <= MAX_PROGRAM_WORDS,
            i <= total,
            label_map@ == zeros,
            forall|j: int| 0 <= j < i ==> #[trigger] mats@[j] == materialize_spec(instrs@[j], zeros),
            zeros.len() == nl,
            forall|k: int| 0 <= k < zeros.len() ==> zeros[k] == 0,
        decreases n - i,
    {
        let m = instrs[i].materialize(&label_map);
        let len = m.len();
        if total + len > MAX_PROGRAM_WORDS {
            proof {
                let grown = mats@.push(m);
                lemma_prefix_same(grown, mats@, i as int);
                assert forall|a: Seq<Word>| #[trigger] fitting_layout(instrs@, positions@, a) implies forall|j: int|
                    0 <= j < i + 1 ==> #[trigger] grown[j].words().len() <= demand(instrs@[j], a) by {
                    assert forall|j: int| 0 <= j < i + 1 implies #[trigger] grown[j].words().len() <= demand(instrs@[j], a) by {
                        lemma_demand_monotone(instrs@[j], zeros, a);
                    }
                }
                lemma_no_fitting_layout(grown, instrs@, positions@, i + 1);
            }
            return Err(AssembleError::ProgramTooLong);
        }
        let ghost before = mats@;
        mats.push(m);
        proof {
            lemma_prefix_same(mats@, before, i as int);
        }
        total = total + len;
        i = i + 1;
    }
    // The start of each instruction in this layout, and each label's address.
    let mut starts: Vec<usize> = Vec::new();
    let mut at: usize = 0;
    let mut k: usize = 0;
    while k <= n
        invariant
            k <= n + 1,
            n <= MAX_PROGRAM_WORDS,
            n == mats@.len(),
            starts@.len() == k,
            forall|j: int| 0 <= j < k ==> starts@[j] == prefix_len(mats@, j),
            k <= n ==> at == prefix_len(mats@, k as int),
            total == prefix_len(mats@, n as int),
            total <= MAX_PROGRAM_WORDS,
            n <= total,
        decreases n + 1 - k,
    {
        proof {
            lemma_prefix_bounds(mats@, k as int, n as int);
        }
        starts.push(at);
        if k < n {
            at = at + mats[k].len();
        }
        k = k + 1;
    }
    let mut l: usize = 0;
    while l < nl
        invariant
            l <= nl == positions@.len() == label_map@.len(),
            starts@.len() == n + 1,
            n == mats@.len(),
            forall|j: int| 0 <= j <= n ==> starts@[j] == prefix_len(mats@, j),
            forall|p: int| 0 <= p < positions@.len() ==> #[trigger] positions@[p] <= n,
            forall|p: int| 0 <= p < l ==> label_map@[p] == prefix_len(mats@, #[trigger] positions@[p] as int),
            total == prefix_len(mats@, n as int),
            total <= MAX_PROGRAM_WORDS,
            n <= total,
            zeros.len() == label_map@.len(),
            forall|k: int| 0 <= k < zeros.len() ==> zeros[k] == 0,
        decreases nl - l,
    {
        proof {
            lemma_prefix_bounds(mats@, positions@[l as int] as int, n as int);
        }
        label_map.set(l, starts[positions[l]] as Word);
        l = l + 1;
    }
    proof {
        assert forall|j: int| 0 <= j < n implies #[trigger] mats@[j].words().len() <= demand(
            instrs@[j],
            zeros,
        ) by {}
        lemma_within_demand_grows(mats@, instrs@, zeros, label_map@);
        lemma_prefix_at_most(mats@, n as int);
        assert forall|a: Seq<Word>| #[trigger] fitting_layout(instrs@, positions@, a) implies within_demand(mats@, instrs@, a) by {
            lemma_within_demand_grows(mats@, instrs@, zeros, a);
        }
    }
    // Passes until one changes no length; the labels after an instruction whose
    // length changed move with it. Lengths only grow, so each pass that changes
    // something adds a word, and a program of n instructions takes at most 3n.
    let max_passes = 2 * n + 2;
    let mut passes: usize = 0;
    let mut settled_now = false;
    while passes < max_passes && !settled_now
        invariant
            n == instrs@.len() == mats@.len(),
            nl == positions@.len() == label_map@.len(),
            forall|j: int| 0 <= j < instrs@.len() ==> refers_below(#[trigger] instrs@[j], positions@.len()),
            forall|p: int| 0 <= p < positions@.len() ==> #[trigger] positions@[p] <= n,
            labels_placed(mats@, positions@, label_map@),
            total == prefix_len(mats@, n as int),
            total <= MAX_PROGRAM_WORDS,
            settled_now ==> mats@ =~= materialize_all(instrs@, label_map@),
            within_demand(mats@, instrs@, label_map@),
            under_every_layout(mats@, instrs@, positions@),
            n <= MAX_PROGRAM_WORDS,
            max_passes == 2 * n + 2,
            passes <= max_passes,
            total <= 3 * n,
            !settled_now ==> total >= n + passes,
        decreases max_passes - passes,
    {
        let ghost start_total = total;
        let mut changed = false;
        let mut i: usize = 0;
        while i < n
            invariant
                i <= n == instrs@.len() == mats@.len(),
                nl == positions@.len() == label_map@.len(),
                forall|j: int| 0 <= j < instrs@.len() ==> refers_below(#[trigger] instrs@[j], positions@.len()),
                forall|p: int| 0 <= p < positions@.len() ==> #[trigger] positions@[p] <= n,
                labels_placed(mats@, positions@, label_map@),
                total == prefix_len(mats@, n as int),
                total <= MAX_PROGRAM_WORDS,
                !changed ==> forall|j: int| 0 <= j < i ==> mats@[j] == materialize_spec(#[trigger] instrs@[j], label_map@),
                within_demand(mats@, instrs@, label_map@),
                under_every_layout(mats@, instrs@, positions@),
                total >= start_total,
                changed ==> total > start_total,
            decreases n - i,
        {
            let new_instruction = instrs[i].materialize(&label_map);
            let old_length = mats[i].len();
            let new_length = new_instruction.len();
            let ghost old_mats = mats@;
            let ghost new_mats = mats@.update(i as int, new_instruction);
            proof {
                lemma_prefix_update(old_mats, i as int, new_instruction, n as int);
            }
            let ghost old_map = label_map@;
            proof {
                lemma_prefix_bounds(old_mats, i as int, n as int);
                assert(old_mats[i as int].words().len() <= demand(instrs@[i as int], label_map@));
                assert forall|a: Seq<Word>| #[trigger] fitting_layout(instrs@, positions@, a) implies within_demand(new_mats, instrs@, a) by {
                    lemma_map_below(old_mats, instrs@, positions@, old_map, a);
                    lemma_demand_monotone(instrs@[i as int], old_map, a);
                    assert forall|j: int| 0 <= j < new_mats.len() implies #[trigger] new_mats[j].words().len() <= demand(instrs@[j], a) by {
                        if j != i {
                            assert(old_mats[j].words().len() <= demand(instrs@[j], a));
                        }
                    }
                }
            }
            if new_length != old_length {
                if total - old_length + new_length > MAX_PROGRAM_WORDS {
                    proof {
                        lemma_no_fitting_layout(new_mats, instrs@, positions@, n as int);
                    }
                    return Err(AssembleError::ProgramTooLong);
                }
                let mut l: usize = 0;
                while l < nl
                    invariant
                        l <= nl == positions@.len() == label_map@.len(),
                        i < n == old_mats.len(),
                        forall|p: int| 0 <= p < positions@.len() ==> #[trigger] positions@[p] <= n,
                        new_mats == old_mats.update(i as int, new_instruction),
                        new_length == new_instruction.words().len(),
                        old_length == old_mats[i as int].words().len(),
                        prefix_len(new_mats, n as int) <= MAX_PROGRAM_WORDS,
                        old_map.len() == nl,
                        forall|p: int| 0 <= p < positions@.len() ==> old_map[p] == prefix_len(old_mats, #[trigger] positions@[p] as int),
                        forall|p: int| 0 <= p < l ==> label_map@[p] == prefix_len(new_mats, #[trigger] positions@[p] as int),
                        forall|p: int| l <= p < nl ==> label_map@[p] == old_map[p],
                        new_length >= old_length,
                        forall|p: int| 0 <= p < nl ==> old_map[p] <= label_map@[p],
                    decreases nl - l,
                {
                    let p = positions[l];
                    proof {
                        lemma_prefix_update(old_mats, i as int, new_instruction, p as int);
                        lemma_prefix_bounds(new_mats, p as int, n as int);
                        if p > i {
                            lemma_prefix_bounds(old_mats, i as int, p as int);
                        }
                    }
                    if p > i {
                        let moved = label_map[l] as usize + new_length - old_length;
                        label_map.set(l, moved as Word);
                    }
                    l = l + 1;
                }
                total = total - old_length + new_length;
                changed = true;
            }
            mats.set(i, new_instruction);
            proof {
                assert(mats@ == new_mats);
                lemma_within_demand_grows(old_mats, instrs@, old_map, label_map@);
                lemma_demand_monotone(instrs@[i as int], old_map, label_map@);
                assert(within_demand(mats@, instrs@, label_map@));
                if new_length == old_length {
                    assert forall|p: int| 0 <= p < positions@.len() implies label_map@[p] == prefix_len(
                        mats@,
                        #[trigger] positions@[p] as int,
                    ) by {
                        lemma_prefix_update(old_mats, i as int, new_instruction, positions@[p] as int);
                    }
                }
            }
            i = i + 1;
        }
        proof {
            lemma_prefix_at_most(mats@, n as int);
        }
        if !changed {
            settled_now = true;
        }
        passes = passes + 1;
    }
    assert(settled_now);
    let mut image: Vec<Word> = Vec::new();
    let mut i: usize = 0;
    while i < n
        invariant
            i <= n == instrs@.len(),
            nl == label_map@.len() == positions@.len(),
            forall|j: int| 0 <= j < instrs@.len() ==> refers_below(#[trigger] instrs@[j], positions@.len()),
            image@ == emit_spec(materialize_all(instrs@, label_map@).subrange(0, i as int)),
        decreases n - i,
    {
        let ghost all = materialize_all(instrs@, label_map@);
        assert(all.subrange(0, i + 1).drop_last() =~= all.subrange(0, i as int));
        write_materialized_instruction_into_bytestream(&mut image, &instrs[i], &label_map);
        i = i + 1;
    }
    proof {
        let all = materialize_all(instrs@, label_map@);
        assert(all.subrange(0, n as int) =~= all);
        assert(all =~= mats@);
        lemma_emit_len(all);
    }
    Ok((image, label_map))
}

/// The program a source text describes before it is laid out: its linked
/// instructions and, for each label, the number of instructions before it; or
/// the first error in the text.
pub open spec fn front_end(src: Seq<u8>) -> Result<(Seq<SourceInstruction>, Seq<usize>), AssembleError> {
    match lex_spec(src) {
        Err(e) => Err(e),
        Ok(toks) => match parse_spec(src, toks) {
            Err(e) => Err(e),
            Ok(stmts) => link_spec(src, toks, stmts),
        },
    }
}

/// `image` is the instructions encoded against label addresses that are a
/// fixed point, fits in 0xffff words, and is the shortest such layout: no
/// instruction in it is longer than in any other fitting fixed point.
pub open spec fn laid_out(instrs: Seq<SourceInstruction>, positions: Seq<usize>, image: Seq<Word>) -> bool {
    exists|addrs: Seq<Word>|
        settled(instrs, positions, addrs) && image == emit_spec(materialize_all(instrs, addrs))
            && image.len() <= MAX_PROGRAM_WORDS && under_every_layout(
            materialize_all(instrs, addrs),
            instrs,
            positions,
        )
}

/// Assembles source text into a program image.
///
/// An error in the text (an unexpected character, a grammar error, an unknown
/// mnemonic, a malformed or out-of-range literal, a label as destination, a
/// label defined twice, an undefined label) is returned as the front end finds
/// it first. Otherwise the image is the instructions encoded against label
/// addresses that are a fixed point of the layout; `ProgramTooLong` comes
/// exactly when no such layout fits in 0xffff words.
pub fn assemble(source: &str) -> (r: Result<Vec<Word>, AssembleError>)
    requires
        source.spec_bytes().len() < usize::MAX - 8,
    ensures
        match front_end(source.spec_bytes()) {
            Err(e) => r == Err::<Vec<Word>, AssembleError>(e),
            Ok((instrs, positions)) => match r {
                Ok(image) => laid_out(instrs, positions, image@),
                Err(e) => e == AssembleError::ProgramTooLong && !exists|a: Seq<Word>| fitting_layout(instrs, positions, a),
            },
        },
{
    let src = source.as_bytes();
    assert(src@ == source.spec_bytes());
    let tokens = match lex(src) {
        Ok(tokens) => tokens,
        Err(e) => {
            return Err(e);
        },
    };
    let toks = tokens.as_slice();
    assert(toks@ == tokens@);
    let statements = match get_meta_instructions(src, toks) {
        Ok(statements) => statements,
        Err(e) => {
            return Err(e);
        },
    };
    let (instrs, positions) = match link(src, toks, &statements) {
        Ok(linked) => linked,
        Err(e) => {
            return Err(e);
        },
    };
    assert(front_end(source.spec_bytes()) == Ok::<(Seq<SourceInstruction>, Seq<usize>), AssembleError>((instrs@, positions@)));
    match resolve_sizes(&instrs, &positions) {
        Ok((image, addrs)) => {
            assert(settled(instrs@, positions@, addrs@) && image@ == emit_spec(
                materialize_all(instrs@, addrs@),
            ) && image@.len() <= MAX_PROGRAM_WORDS);
            assert(laid_out(instrs@, positions@, image@));
            Ok(image)
        },
        Err(e) => Err(e),
    }
}

} // verus!
