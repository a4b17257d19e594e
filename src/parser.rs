//! The statement grammar of assembly source, over the tokens of the lexer.
//!
//! A program is a list of statements separated by line ends. A statement is a
//! label, `:name`, or an instruction: a basic mnemonic with two operands
//! separated by a comma, or `JSR` with one. An operand is a register (`A` to
//! `J`), `SP`, `PC` or `O`, `POP`, `PEEK` or `PUSH`, a literal (decimal or
//! `0x` hex), `[literal]`, `[register]`, `[literal+register]`, or a label
//! name. Keywords are upper case.
use vstd::prelude::*;

use crate::lexer::Token;
use crate::register::Register;
use crate::Word;

verus! {

/// Why a source text could not be assembled.
#[derive(Debug, Copy, Clone, PartialEq, Eq, Structural)]
pub enum AssembleError {
    /// A byte that cannot start a token, at this position of the source.
    UnexpectedCharacter { position: usize },
    /// The token at this index does not fit the grammar.
    Syntax { token: usize },
    /// The name at this token index is no mnemonic.
    UnknownMnemonic { token: usize },
    /// The number at this token index is malformed.
    InvalidLiteral { token: usize },
    /// The number at this token index does not fit in a word.
    LiteralOutOfRange { token: usize },
    /// The first operand of a basic instruction, at this token index, is a label.
    LabelAsDestination { token: usize },
    /// The label defined at this token index was defined before.
    DuplicateLabel { token: usize },
    /// The label referenced at this token index is defined nowhere.
    UndefinedLabel { token: usize },
    /// The program does not fit in the 16-bit address space.
    ProgramTooLong,
}

/// A stack operand.
#[derive(Debug, Copy, Clone, PartialEq, Eq, Structural)]
pub enum StackOperation {
    Pop,
    Peek,
    Push,
}

/// A special register operand.
#[derive(Debug, Copy, Clone, PartialEq, Eq, Structural)]
pub enum SpecialRegister {
    StackPointer,
    ProgramCounter,
    Overflow,
}

/// An operand whose value is known from the source alone.
#[derive(Debug, Copy, Clone, PartialEq, Eq, Structural)]
pub enum Operand {
    /// A register.
    Register(Register),
    /// `[register]`
    AddressFromRegister(Register),
    /// `[address+register]`
    AddressOffset { address: Word, register: Register },
    /// `POP`, `PEEK` or `PUSH`.
    StackOperation(StackOperation),
    /// `SP`, `PC` or `O`.
    SpecialRegister(SpecialRegister),
    /// `[address]`
    Address(Word),
    /// A literal.
    Literal(Word),
}

/// The basic mnemonics.
#[allow(non_camel_case_types)]
#[derive(Debug, Copy, Clone, PartialEq, Eq, Structural)]
pub enum BasicOperationName {
    SET,
    ADD,
    SUB,
    MUL,
    DIV,
    MOD,
    SHL,
    SHR,
    AND,
    BOR,
    XOR,
    IFE,
    IFN,
    IFG,
    IFB,
}

/// The non-basic mnemonics.
#[allow(non_camel_case_types)]
#[derive(Debug, Copy, Clone, PartialEq, Eq, Structural)]
pub enum NonBasicOperationName {
    JSR,
}

/// An operand as written: known, or the name of a label.
#[derive(Debug, Copy, Clone, PartialEq, Eq, Structural)]
pub enum ParsedArgument {
    /// An operand known from the source alone.
    Static(Operand),
    /// The label whose name is the token at this index.
    Label { token: usize },
}

/// A statement of the source.
#[derive(Debug, Copy, Clone, PartialEq, Eq, Structural)]
pub enum Statement {
    /// The definition of the label whose name is the token at this index.
    Label { token: usize },
    /// A basic instruction; its destination cannot be a label.
    Basic { operation: BasicOperationName, a: Operand, b: ParsedArgument },
    /// A non-basic instruction.
    NonBasic { operation: NonBasicOperationName, a: ParsedArgument },
}

/// The bytes of a name token.
pub open spec fn token_bytes(src: Seq<u8>, t: Token) -> Seq<u8> {
    match t {
        Token::Name { start, end } => src.subrange(start as int, end as int),
        _ => Seq::empty(),
    }
}

/// Tokens whose names lie within the source.
pub open spec fn tokens_in(src: Seq<u8>, toks: Seq<Token>) -> bool {
    forall|k: int|
        0 <= k < toks.len() ==> match #[trigger] toks[k] {
            Token::Name { start, end } => start < end <= src.len(),
            _ => true,
        }
}

pub open spec fn register_named(n: Seq<u8>) -> Option<Register> {
    if n == seq![0x41u8] {
        Some(Register::A)
    } else if n == seq![0x42u8] {
        Some(Register::B)
    } else if n == seq![0x43u8] {
        Some(Register::C)
    } else if n == seq![0x58u8] {
        Some(Register::X)
    } else if n == seq![0x59u8] {
        Some(Register::Y)
    } else if n == seq![0x5au8] {
        Some(Register::Z)
    } else if n == seq![0x49u8] {
        Some(Register::I)
    } else if n == seq![0x4au8] {
        Some(Register::J)
    } else {
        None
    }
}

pub open spec fn keyword_operand(n: Seq<u8>) -> Option<Operand> {
    if register_named(n) is Some {
        Some(Operand::Register(register_named(n).unwrap()))
    } else if n == seq![0x53u8, 0x50u8] {
        Some(Operand::SpecialRegister(SpecialRegister::StackPointer))
    } else if n == seq![0x50u8, 0x43u8] {
        Some(Operand::SpecialRegister(SpecialRegister::ProgramCounter))
    } else if n == seq![0x4fu8] {
        Some(Operand::SpecialRegister(SpecialRegister::Overflow))
    } else if n == seq![0x50u8, 0x4fu8, 0x50u8] {
        Some(Operand::StackOperation(StackOperation::Pop))
    } else if n == seq![0x50u8, 0x45u8, 0x45u8, 0x4bu8] {
        Some(Operand::StackOperation(StackOperation::Peek))
    } else if n == seq![0x50u8, 0x55u8, 0x53u8, 0x48u8] {
        Some(Operand::StackOperation(StackOperation::Push))
    } else {
        None
    }
}

pub open spec fn basic_named(n: Seq<u8>) -> Option<BasicOperationName> {
    if n == seq![0x53u8, 0x45u8, 0x54u8] {
        Some(BasicOperationName::SET)
    } else if n == seq![0x41u8, 0x44u8, 0x44u8] {
        Some(BasicOperationName::ADD)
    } else if n == seq![0x53u8, 0x55u8, 0x42u8] {
        Some(BasicOperationName::SUB)
    } else if n == seq![0x4du8, 0x55u8, 0x4cu8] {
        Some(BasicOperationName::MUL)
    } else if n == seq![0x44u8, 0x49u8, 0x56u8] {
        Some(BasicOperationName::DIV)
    } else if n == seq![0x4du8, 0x4fu8, 0x44u8] {
        Some(BasicOperationName::MOD)
    } else if n == seq![0x53u8, 0x48u8, 0x4cu8] {
        Some(BasicOperationName::SHL)
    } else if n == seq![0x53u8, 0x48u8, 0x52u8] {
        Some(BasicOperationName::SHR)
    } else if n == seq![0x41u8, 0x4eu8, 0x44u8] {
        Some(BasicOperationName::AND)
    } else if n == seq![0x42u8, 0x4fu8, 0x52u8] {
        Some(BasicOperationName::BOR)
    } else if n == seq![0x58u8, 0x4fu8, 0x52u8] {
        Some(BasicOperationName::XOR)
    } else if n == seq![0x49u8, 0x46u8, 0x45u8] {
        Some(BasicOperationName::IFE)
    } else if n == seq![0x49u8, 0x46u8, 0x4eu8] {
        Some(BasicOperationName::IFN)
    } else if n == seq![0x49u8, 0x46u8, 0x47u8] {
        Some(BasicOperationName::IFG)
    } else if n == seq![0x49u8, 0x46u8, 0x42u8] {
        Some(BasicOperationName::IFB)
    } else {
        None
    }
}

pub open spec fn nonbasic_named(n: Seq<u8>) -> Option<NonBasicOperationName> {
    if n == seq![0x4au8, 0x53u8, 0x52u8] {
        Some(NonBasicOperationName::JSR)
    } else {
        None
    }
}

/// The value of the digit `c` in base `base` (10 or 16), if it is one.
pub open spec fn digit_value(c: u8, base: int) -> Option<int> {
    if 0x30u8 <= c <= 0x39u8 {
        Some(c - 0x30u8)
    } else if base == 16 && 0x61u8 <= c <= 0x66u8 {
        Some(c - 0x61u8 + 10)
    } else if base == 16 && 0x41u8 <= c <= 0x46u8 {
        Some(c - 0x41u8 + 10)
    } else {
        None
    }
}

/// The number the digits `s` write in base `base`, if they are all digits.
pub open spec fn digits_value(s: Seq<u8>, base: int) -> Option<int>
    decreases s.len(),
{
    if s.len() == 0 {
        Some(0)
    } else {
        match (digits_value(s.drop_last(), base), digit_value(s.last(), base)) {
            (Some(v), Some(d)) => Some(v * base + d),
            _ => None,
        }
    }
}

/// Whether a name is written as a number: it starts with a digit.
pub open spec fn is_numeric(n: Seq<u8>) -> bool {
    n.len() > 0 && 0x30u8 <= n[0] <= 0x39u8
}

/// The value of a number: decimal, or hex after `0x`.
pub open spec fn literal_value(n: Seq<u8>) -> Option<int> {
    if n.len() >= 2 && n[0] == 0x30u8 && (n[1] == 0x78u8 || n[1] == 0x58u8) {
        if n.len() == 2 {
            None
        } else {
            digits_value(n.subrange(2, n.len() as int), 16)
        }
    } else {
        digits_value(n, 10)
    }
}

/// The word a number token at index `k` stands for.
pub open spec fn word_at(n: Seq<u8>, k: int) -> Result<Word, AssembleError> {
    match literal_value(n) {
        None => Err(AssembleError::InvalidLiteral { token: k as usize }),
        Some(v) => if v > 0xffff {
            Err(AssembleError::LiteralOutOfRange { token: k as usize })
        } else {
            Ok(v as Word)
        },
    }
}

/// Whether the token at `k` is a name.
pub open spec fn is_name_at(toks: Seq<Token>, k: int) -> bool {
    0 <= k < toks.len() && toks[k] is Name
}

/// Whether the token at `k` is `t`.
pub open spec fn is_at(toks: Seq<Token>, k: int, t: Token) -> bool {
    0 <= k < toks.len() && toks[k] == t
}

/// The operand in brackets that starts at the `[` at `k`, and the index after it.
pub open spec fn parse_bracketed(src: Seq<u8>, toks: Seq<Token>, k: int) -> Result<
    (ParsedArgument, int),
    AssembleError,
> {
    if !is_name_at(toks, k + 1) {
        Err(AssembleError::Syntax { token: (k + 1) as usize })
    } else {
        let n = token_bytes(src, toks[k + 1]);
        if register_named(n) is Some {
            if is_at(toks, k + 2, Token::Close) {
                Ok(
                    (
                        ParsedArgument::Static(
                            Operand::AddressFromRegister(register_named(n).unwrap()),
                        ),
                        k + 3,
                    ),
                )
            } else {
                Err(AssembleError::Syntax { token: (k + 2) as usize })
            }
        } else if is_numeric(n) {
            match word_at(n, k + 1) {
                Err(e) => Err(e),
                Ok(v) => if is_at(toks, k + 2, Token::Close) {
                    Ok((ParsedArgument::Static(Operand::Address(v)), k + 3))
                } else if is_at(toks, k + 2, Token::Plus) && is_name_at(toks, k + 3)
                    && register_named(token_bytes(src, toks[k + 3])) is Some && is_at(
                    toks,
                    k + 4,
                    Token::Close,
                ) {
                    Ok(
                        (
                            ParsedArgument::Static(
                                Operand::AddressOffset {
                                    address: v,
                                    register: register_named(token_bytes(src, toks[k + 3])).unwrap(),
                                },
                            ),
                            k + 5,
                        ),
                    )
                } else {
                    Err(AssembleError::Syntax { token: (k + 2) as usize })
                },
            }
        } else {
            Err(AssembleError::Syntax { token: (k + 1) as usize })
        }
    }
}

/// The operand that starts at token `k`, and the index after it.
pub open spec fn parse_operand(src: Seq<u8>, toks: Seq<Token>, k: int) -> Result<
    (ParsedArgument, int),
    AssembleError,
> {
    if is_name_at(toks, k) {
        let n = token_bytes(src, toks[k]);
        if keyword_operand(n) is Some {
            Ok((ParsedArgument::Static(keyword_operand(n).unwrap()), k + 1))
        } else if is_numeric(n) {
            match word_at(n, k) {
                Err(e) => Err(e),
                Ok(v) => Ok((ParsedArgument::Static(Operand::Literal(v)), k + 1)),
            }
        } else {
            Ok((ParsedArgument::Label { token: k as usize }, k + 1))
        }
    } else if is_at(toks, k, Token::Open) {
        parse_bracketed(src, toks, k)
    } else {
        Err(AssembleError::Syntax { token: k as usize })
    }
}

/// Whether a statement may end at `k`: at a line end or the end of the tokens.
pub open spec fn ends_at(toks: Seq<Token>, k: int) -> bool {
    k >= toks.len() || toks[k] == Token::Newline
}

/// The instruction whose mnemonic is the token at `k`, and the index after it.
pub open spec fn parse_instruction(src: Seq<u8>, toks: Seq<Token>, k: int) -> Result<
    (Statement, int),
    AssembleError,
> {
    let n = token_bytes(src, toks[k]);
    if basic_named(n) is Some {
        match parse_operand(src, toks, k + 1) {
            Err(e) => Err(e),
            Ok((a, k1)) => match a {
                ParsedArgument::Label { .. } => Err(
                    AssembleError::LabelAsDestination { token: (k + 1) as usize },
                ),
                ParsedArgument::Static(a) => if !is_at(toks, k1, Token::Comma) {
                    Err(AssembleError::Syntax { token: k1 as usize })
                } else {
                    match parse_operand(src, toks, k1 + 1) {
                        Err(e) => Err(e),
                        Ok((b, k2)) => if ends_at(toks, k2) {
                            Ok(
                                (
                                    Statement::Basic {
                                        operation: basic_named(n).unwrap(),
                                        a,
                                        b,
                                    },
                                    k2,
                                ),
                            )
                        } else {
                            Err(AssembleError::Syntax { token: k2 as usize })
                        },
                    }
                },
            },
        }
    } else if nonbasic_named(n) is Some {
        match parse_operand(src, toks, k + 1) {
            Err(e) => Err(e),
            Ok((a, k1)) => if ends_at(toks, k1) {
                Ok((Statement::NonBasic { operation: nonbasic_named(n).unwrap(), a }, k1))
            } else {
                Err(AssembleError::Syntax { token: k1 as usize })
            },
        }
    } else {
        Err(AssembleError::UnknownMnemonic { token: k as usize })
    }
}

/// `stmts` followed by the outcome `rest`.
pub open spec fn prepend_statements(
    stmts: Seq<Statement>,
    rest: Result<Seq<Statement>, AssembleError>,
) -> Result<Seq<Statement>, AssembleError> {
    match rest {
        Ok(r) => Ok(stmts + r),
        Err(e) => Err(e),
    }
}

/// The statements from token `k` on.
pub open spec fn parse_from(src: Seq<u8>, toks: Seq<Token>, k: int) -> Result<
    Seq<Statement>,
    AssembleError,
>
    decreases toks.len() - k,
{
    if k < 0 || k >= toks.len() {
        Ok(Seq::empty())
    } else if toks[k] == Token::Newline {
        parse_from(src, toks, k + 1)
    } else if toks[k] == Token::Colon {
        if is_name_at(toks, k + 1) && !is_numeric(token_bytes(src, toks[k + 1])) {
            prepend_statements(
                seq![Statement::Label { token: (k + 1) as usize }],
                parse_from(src, toks, k + 2),
            )
        } else {
            Err(AssembleError::Syntax { token: (k + 1) as usize })
        }
    } else if toks[k] is Name {
        match parse_instruction(src, toks, k) {
            Err(e) => Err(e),
            Ok((s, next)) => if next > k {
                prepend_statements(seq![s], parse_from(src, toks, next))
            } else {
                Err(AssembleError::Syntax { token: k as usize })
            },
        }
    } else {
        Err(AssembleError::Syntax { token: k as usize })
    }
}

/// The label tokens of a statement are name tokens.
pub open spec fn statement_in(toks: Seq<Token>, st: Statement) -> bool {
    match st {
        Statement::Label { token } => token < toks.len() && toks[token as int] is Name,
        Statement::Basic { b, .. } => match b {
            ParsedArgument::Label { token } => token < toks.len() && toks[token as int] is Name,
            _ => true,
        },
        Statement::NonBasic { a, .. } => match a {
            ParsedArgument::Label { token } => token < toks.len() && toks[token as int] is Name,
            _ => true,
        },
    }
}

/// The label tokens of all statements are name tokens.
pub open spec fn statements_in(toks: Seq<Token>, stmts: Seq<Statement>) -> bool {
    forall|i: int| 0 <= i < stmts.len() ==> statement_in(toks, #[trigger] stmts[i])
}

/// The statements of the tokens `toks` of `src`.
pub open spec fn parse_spec(src: Seq<u8>, toks: Seq<Token>) -> Result<Seq<Statement>, AssembleError> {
    parse_from(src, toks, 0)
}

/// Whether the name `src[start..end]` is the one-byte word `c0`.
fn name_is1(src: &[u8], start: usize, end: usize, c0: u8) -> (r: bool)
    requires
        start <= end <= src@.len(),
    ensures
        r == (src@.subrange(start as int, end as int) == seq![c0]),
{
    let r = end - start == 1 && src[start] == c0;
    proof {
        let ghost n = src@.subrange(start as int, end as int);
        assert(seq![c0].len() == 1);
        assert(seq![c0][0] == c0);
        if r {
            assert(n =~= seq![c0]);
        }
        if n == seq![c0] {
            assert(n[0] == src@[start + 0]);
        }
    }
    r
}

/// Whether the name `src[start..end]` is the two-byte word `c0 c1`.
fn name_is2(src: &[u8], start: usize, end: usize, c0: u8, c1: u8) -> (r: bool)
    requires
        start <= end <= src@.len(),
    ensures
        r == (src@.subrange(start as int, end as int) == seq![c0, c1]),
{
    let r = end - start == 2 && src[start] == c0 && src[start + 1] == c1;
    proof {
        let ghost n = src@.subrange(start as int, end as int);
        assert(seq![c0, c1].len() == 2);
        assert(seq![c0, c1][0] == c0);
        assert(seq![c0, c1][1] == c1);
        if r {
            assert(n =~= seq![c0, c1]);
        }
        if n == seq![c0, c1] {
            assert(n[0] == src@[start + 0]);
            assert(n[1] == src@[start + 1]);
        }
    }
    r
}

/// Whether the name `src[start..end]` is the three-byte word `c0 c1 c2`.
fn name_is3(src: &[u8], start: usize, end: usize, c0: u8, c1: u8, c2: u8) -> (r: bool)
    requires
        start <= end <= src@.len(),
    ensures
        r == (src@.subrange(start as int, end as int) == seq![c0, c1, c2]),
{
    let r = end - start == 3 && src[start] == c0 && src[start + 1] == c1 && src[start + 2] == c2;
    proof {
        let ghost n = src@.subrange(start as int, end as int);
        assert(seq![c0, c1, c2].len() == 3);
        assert(seq![c0, c1, c2][0] == c0);
        assert(seq![c0, c1, c2][1] == c1);
        assert(seq![c0, c1, c2][2] == c2);
        if r {
            assert(n =~= seq![c0, c1, c2]);
        }
        if n == seq![c0, c1, c2] {
            assert(n[0] == src@[start + 0]);
            assert(n[1] == src@[start + 1]);
            assert(n[2] == src@[start + 2]);
        }
    }
    r
}

/// Whether the name `src[start..end]` is the four-byte word `c0 c1 c2 c3`.
fn name_is4(src: &[u8], start: usize, end: usize, c0: u8, c1: u8, c2: u8, c3: u8) -> (r: bool)
    requires
        start <= end <= src@.len(),
    ensures
        r == (src@.subrange(start as int, end as int) == seq![c0, c1, c2, c3]),
{
    let r = end - start == 4 && src[start] == c0 && src[start + 1] == c1 && src[start + 2] == c2
        && src[start + 3] == c3;
    proof {
        let ghost n = src@.subrange(start as int, end as int);
        assert(seq![c0, c1, c2, c3].len() == 4);
        assert(seq![c0, c1, c2, c3][0] == c0);
        assert(seq![c0, c1, c2, c3][1] == c1);
        assert(seq![c0, c1, c2, c3][2] == c2);
        assert(seq![c0, c1, c2, c3][3] == c3);
        if r {
            assert(n =~= seq![c0, c1, c2, c3]);
        }
        if n == seq![c0, c1, c2, c3] {
            assert(n[0] == src@[start + 0]);
            assert(n[1] == src@[start + 1]);
            assert(n[2] == src@[start + 2]);
            assert(n[3] == src@[start + 3]);
        }
    }
    r
}

/// The register a name stands for.
fn parse_register_raw(src: &[u8], start: usize, end: usize) -> (r: Option<Register>)
    requires
        start <= end <= src@.len(),
    ensures
        r == register_named(src@.subrange(start as int, end as int)),
{
    if name_is1(src, start, end, 0x41u8) {
        Some(Register::A)
    } else if name_is1(src, start, end, 0x42u8) {
        Some(Register::B)
    } else if name_is1(src, start, end, 0x43u8) {
        Some(Register::C)
    } else if name_is1(src, start, end, 0x58u8) {
        Some(Register::X)
    } else if name_is1(src, start, end, 0x59u8) {
        Some(Register::Y)
    } else if name_is1(src, start, end, 0x5au8) {
        Some(Register::Z)
    } else if name_is1(src, start, end, 0x49u8) {
        Some(Register::I)
    } else if name_is1(src, start, end, 0x4au8) {
        Some(Register::J)
    } else {
        None
    }
}

/// The operand a keyword stands for: a register, a special register or a
/// stack operation.
fn parse_keyword(src: &[u8], start: usize, end: usize) -> (r: Option<Operand>)
    requires
        start <= end <= src@.len(),
    ensures
        r == keyword_operand(src@.subrange(start as int, end as int)),
{
    if let Some(register) = parse_register_raw(src, start, end) {
        Some(Operand::Register(register))
    } else if let Some(special) = parse_special_register(src, start, end) {
        Some(Operand::SpecialRegister(special))
    } else if let Some(op) = parse_stack_op(src, start, end) {
        Some(Operand::StackOperation(op))
    } else {
        None
    }
}

/// The special register a name stands for.
fn parse_special_register(src: &[u8], start: usize, end: usize) -> (r: Option<SpecialRegister>)
    requires
        start <= end <= src@.len(),
        register_named(src@.subrange(start as int, end as int)) is None,
    ensures
        match keyword_operand(src@.subrange(start as int, end as int)) {
            Some(Operand::SpecialRegister(sr)) => r == Some(sr),
            _ => r is None,
        },
{
    if name_is2(src, start, end, 0x53u8, 0x50u8) {
        Some(SpecialRegister::StackPointer)
    } else if name_is2(src, start, end, 0x50u8, 0x43u8) {
        Some(SpecialRegister::ProgramCounter)
    } else if name_is1(src, start, end, 0x4fu8) {
        Some(SpecialRegister::Overflow)
    } else {
        None
    }
}

/// The stack operation a name stands for.
fn parse_stack_op(src: &[u8], start: usize, end: usize) -> (r: Option<StackOperation>)
    requires
        start <= end <= src@.len(),
        register_named(src@.subrange(start as int, end as int)) is None,
    ensures
        match keyword_operand(src@.subrange(start as int, end as int)) {
            Some(Operand::StackOperation(op)) => r == Some(op),
            _ => r is None,
        },
{
    if name_is3(src, start, end, 0x50u8, 0x4fu8, 0x50u8) {
        Some(StackOperation::Pop)
    } else if name_is4(src, start, end, 0x50u8, 0x45u8, 0x45u8, 0x4bu8) {
        Some(StackOperation::Peek)
    } else if name_is4(src, start, end, 0x50u8, 0x55u8, 0x53u8, 0x48u8) {
        Some(StackOperation::Push)
    } else {
        None
    }
}

/// The basic mnemonic a name stands for.
fn parse_basic_operation(src: &[u8], start: usize, end: usize) -> (r: Option<BasicOperationName>)
    requires
        start <= end <= src@.len(),
    ensures
        r == basic_named(src@.subrange(start as int, end as int)),
{
    if name_is3(src, start, end, 0x53u8, 0x45u8, 0x54u8) {
        Some(BasicOperationName::SET)
    } else if name_is3(src, start, end, 0x41u8, 0x44u8, 0x44u8) {
        Some(BasicOperationName::ADD)
    } else if name_is3(src, start, end, 0x53u8, 0x55u8, 0x42u8) {
        Some(BasicOperationName::SUB)
    } else if name_is3(src, start, end, 0x4du8, 0x55u8, 0x4cu8) {
        Some(BasicOperationName::MUL)
    } else if name_is3(src, start, end, 0x44u8, 0x49u8, 0x56u8) {
        Some(BasicOperationName::DIV)
    } else if name_is3(src, start, end, 0x4du8, 0x4fu8, 0x44u8) {
        Some(BasicOperationName::MOD)
    } else if name_is3(src, start, end, 0x53u8, 0x48u8, 0x4cu8) {
        Some(BasicOperationName::SHL)
    } else if name_is3(src, start, end, 0x53u8, 0x48u8, 0x52u8) {
        Some(BasicOperationName::SHR)
    } else if name_is3(src, start, end, 0x41u8, 0x4eu8, 0x44u8) {
        Some(BasicOperationName::AND)
    } else if name_is3(src, start, end, 0x42u8, 0x4fu8, 0x52u8) {
        Some(BasicOperationName::BOR)
    } else if name_is3(src, start, end, 0x58u8, 0x4fu8, 0x52u8) {
        Some(BasicOperationName::XOR)
    } else if name_is3(src, start, end, 0x49u8, 0x46u8, 0x45u8) {
        Some(BasicOperationName::IFE)
    } else if name_is3(src, start, end, 0x49u8, 0x46u8, 0x4eu8) {
        Some(BasicOperationName::IFN)
    } else if name_is3(src, start, end, 0x49u8, 0x46u8, 0x47u8) {
        Some(BasicOperationName::IFG)
    } else if name_is3(src, start, end, 0x49u8, 0x46u8, 0x42u8) {
        Some(BasicOperationName::IFB)
    } else {
        None
    }
}

/// The non-basic mnemonic a name stands for.
fn parse_nonbasic_operation(src: &[u8], start: usize, end: usize) -> (r: Option<
    NonBasicOperationName,
>)
    requires
        start <= end <= src@.len(),
    ensures
        r == nonbasic_named(src@.subrange(start as int, end as int)),
{
    if name_is3(src, start, end, 0x4au8, 0x53u8, 0x52u8) {
        Some(NonBasicOperationName::JSR)
    } else {
        None
    }
}

fn digit_value_exec(c: u8, base: u32) -> (r: Option<u32>)
    requires
        base == 10 || base == 16,
    ensures
        r matches Some(d) ==> d < 16,
        r == (match digit_value(c, base as int) {
            Some(d) => Some(d as u32),
            None => None::<u32>,
        }),
{
    if 0x30u8 <= c && c <= 0x39u8 {
        Some((c - 0x30u8) as u32)
    } else if base == 16 && 0x61u8 <= c && c <= 0x66u8 {
        Some((c - 0x61u8) as u32 + 10)
    } else if base == 16 && 0x41u8 <= c && c <= 0x46u8 {
        Some((c - 0x41u8) as u32 + 10)
    } else {
        None
    }
}

/// The digits `src[from..end]` in base `base`, as a value, saturated at 2^16;
/// `None` if one of them is no digit.
fn parse_digits(src: &[u8], from: usize, end: usize, base: u32) -> (r: Option<u32>)
    requires
        from <= end <= src@.len(),
        base == 10 || base == 16,
    ensures
        match digits_value(src@.subrange(from as int, end as int), base as int) {
            Some(v) => r == Some(if v > 0xffff { 0x10000u32 } else { v as u32 }),
            None => r is None,
        },
        digits_value(src@.subrange(from as int, end as int), base as int) matches Some(v) ==> v >= 0,
{
    let mut valid = true;
    let mut value: u32 = 0;
    let mut j: usize = from;
    assert(src@.subrange(from as int, from as int) =~= Seq::<u8>::empty());
    while j < end
        invariant
            from <= j <= end <= src@.len(),
            base == 10 || base == 16,
            valid == digits_value(src@.subrange(from as int, j as int), base as int) is Some,
            valid ==> value == (if digits_value(src@.subrange(from as int, j as int), base as int).unwrap() > 0xffff {
                0x10000int
            } else {
                digits_value(src@.subrange(from as int, j as int), base as int).unwrap()
            }),
            digits_value(src@.subrange(from as int, j as int), base as int) matches Some(v) ==> v >= 0,
        decreases end - j,
    {
        let ghost prefix = src@.subrange(from as int, j as int);
        let ghost next = src@.subrange(from as int, j + 1);
        assert(next.drop_last() =~= prefix);
        assert(next.last() == src@[j as int]);
        let d = digit_value_exec(src[j], base);
        match d {
            None => {
                valid = false;
            },
            Some(d) => {
                if valid {
                    let ghost v = digits_value(prefix, base as int).unwrap();
                    if value >= 0x10000 {
                        assert(v * base + d >= 0x10000) by (nonlinear_arith)
                            requires
                                v >= 0x10000,
                                base >= 10,
                                d >= 0,
                        ;
                    } else {
                        assert(value * base <= 0xffff * 16) by (nonlinear_arith)
                            requires
                                value <= 0xffff,
                                base <= 16,
                        ;
                        let next_value = value * base + d;
                        value = if next_value > 0xffff { 0x10000 } else { next_value };
                    }
                    assert(v * base + d >= 0) by (nonlinear_arith)
                        requires
                            v >= 0,
                            base >= 10,
                            d >= 0,
                    ;
                }
            },
        }
        j = j + 1;
    }
    if valid {
        Some(value)
    } else {
        None
    }
}

/// The word the number `src[start..end]` (the token at index `k`) stands for.
fn parse_literal_raw(src: &[u8], start: usize, end: usize, k: usize) -> (r: Result<Word, AssembleError>)
    requires
        start < end <= src@.len(),
    ensures
        r == word_at(src@.subrange(start as int, end as int), k as int),
{
    let ghost n = src@.subrange(start as int, end as int);
    assert(n[0] == src@[start as int]);
    assert(n.len() >= 2 ==> n[1] == src@[start + 1]);
    let hex = end - start >= 2 && src[start] == 0x30u8 && (src[start + 1] == 0x78u8 || src[start + 1]
        == 0x58u8);
    let digits = if hex {
        if end - start == 2 {
            return Err(AssembleError::InvalidLiteral { token: k });
        }
        assert(n.subrange(2, n.len() as int) =~= src@.subrange(start + 2, end as int));
        assert(literal_value(n) == digits_value(src@.subrange(start + 2, end as int), 16));
        parse_digits(src, start + 2, end, 16)
    } else {
        assert(literal_value(n) == digits_value(n, 10));
        parse_digits(src, start, end, 10)
    };
    match digits {
        None => Err(AssembleError::InvalidLiteral { token: k }),
        Some(v) => if v > 0xffff {
            Err(AssembleError::LiteralOutOfRange { token: k })
        } else {
            Ok(v as Word)
        },
    }
}

/// The operand in brackets that starts at the `[` at token `k`.
fn parse_address(src: &[u8], toks: &[Token], k: usize) -> (r: Result<(ParsedArgument, usize), AssembleError>)
    requires
        tokens_in(src@, toks@),
        k < toks@.len(),
        toks@.len() < usize::MAX - 8,
    ensures
        match r {
            Ok((arg, next)) => parse_bracketed(src@, toks@, k as int) == Ok::<(ParsedArgument, int), AssembleError>((arg, next as int)),
            Err(e) => parse_bracketed(src@, toks@, k as int) == Err::<(ParsedArgument, int), AssembleError>(e),
        },
{
    if k + 1 >= toks.len() {
        return Err(AssembleError::Syntax { token: k + 1 });
    }
    let (start, end) = match toks[k + 1] {
        Token::Name { start, end } => (start, end),
        _ => {
            return Err(AssembleError::Syntax { token: k + 1 });
        },
    };
    assert(toks@[k + 1] is Name);
    let close_at_2 = k + 2 < toks.len() && toks[k + 2] == Token::Close;
    if let Some(register) = parse_register_raw(src, start, end) {
        if close_at_2 {
            Ok((ParsedArgument::Static(Operand::AddressFromRegister(register)), k + 3))
        } else {
            Err(AssembleError::Syntax { token: k + 2 })
        }
    } else if 0x30u8 <= src[start] && src[start] <= 0x39u8 {
        let v = match parse_literal_raw(src, start, end, k + 1) {
            Ok(v) => v,
            Err(e) => {
                return Err(e);
            },
        };
        if close_at_2 {
            return Ok((ParsedArgument::Static(Operand::Address(v)), k + 3));
        }
        if k + 4 < toks.len() && toks[k + 2] == Token::Plus && toks[k + 4] == Token::Close {
            if let Token::Name { start: rs, end: re } = toks[k + 3] {
                assert(toks@[k + 3] is Name);
                if let Some(register) = parse_register_raw(src, rs, re) {
                    return Ok(
                        (
                            ParsedArgument::Static(Operand::AddressOffset { address: v, register }),
                            k + 5,
                        ),
                    );
                }
            }
        }
        Err(AssembleError::Syntax { token: k + 2 })
    } else {
        Err(AssembleError::Syntax { token: k + 1 })
    }
}

/// The operand that starts at token `k`, and the index after it.
fn parse_value(src: &[u8], toks: &[Token], k: usize) -> (r: Result<(ParsedArgument, usize), AssembleError>)
    requires
        tokens_in(src@, toks@),
        toks@.len() < usize::MAX - 8,
        k <= toks@.len(),
    ensures
        match r {
            Ok((arg, next)) => parse_operand(src@, toks@, k as int) == Ok::<(ParsedArgument, int), AssembleError>((arg, next as int)) && k < next <= toks@.len()
                && (arg matches ParsedArgument::Label { token } ==> token < toks@.len() && toks@[token as int] is Name),
            Err(e) => parse_operand(src@, toks@, k as int) == Err::<(ParsedArgument, int), AssembleError>(e),
        },
{
    if k >= toks.len() {
        return Err(AssembleError::Syntax { token: k });
    }
    match toks[k] {
        Token::Name { start, end } => {
            assert(toks@[k as int] is Name);
            if let Some(op) = parse_keyword(src, start, end) {
                Ok((ParsedArgument::Static(op), k + 1))
            } else if 0x30u8 <= src[start] && src[start] <= 0x39u8 {
                match parse_literal_raw(src, start, end, k) {
                    Ok(v) => Ok((ParsedArgument::Static(Operand::Literal(v)), k + 1)),
                    Err(e) => Err(e),
                }
            } else {
                Ok((ParsedArgument::Label { token: k }, k + 1))
            }
        },
        Token::Open => {
            let r = parse_address(src, toks, k);
            proof {
                if let Ok((_, next)) = r {
                    assert(next == k + 3 || next == k + 5);
                }
            }
            r
        },
        _ => Err(AssembleError::Syntax { token: k }),
    }
}

/// The instruction whose mnemonic is the token at `k`, and the index after it.
fn parse_instruction_at(src: &[u8], toks: &[Token], k: usize) -> (r: Result<(Statement, usize), AssembleError>)
    requires
        tokens_in(src@, toks@),
        toks@.len() < usize::MAX - 8,
        k < toks@.len(),
        toks@[k as int] is Name,
    ensures
        match r {
            Ok((st, next)) => parse_instruction(src@, toks@, k as int) == Ok::<(Statement, int), AssembleError>((st, next as int)) && k < next <= toks@.len()
                && statement_in(toks@, st),
            Err(e) => parse_instruction(src@, toks@, k as int) == Err::<(Statement, int), AssembleError>(e),
        },
{
    let (start, end) = match toks[k] {
        Token::Name { start, end } => (start, end),
        _ => {
            return Err(AssembleError::Syntax { token: k });
        },
    };
    if let Some(operation) = parse_basic_operation(src, start, end) {
        let (a, k1) = match parse_value(src, toks, k + 1) {
            Ok(parsed) => parsed,
            Err(e) => {
                return Err(e);
            },
        };
        let a = match a {
            ParsedArgument::Static(a) => a,
            ParsedArgument::Label { .. } => {
                return Err(AssembleError::LabelAsDestination { token: k + 1 });
            },
        };
        if !(k1 < toks.len() && toks[k1] == Token::Comma) {
            return Err(AssembleError::Syntax { token: k1 });
        }
        let (b, k2) = match parse_value(src, toks, k1 + 1) {
            Ok(parsed) => parsed,
            Err(e) => {
                return Err(e);
            },
        };
        if !(k2 >= toks.len() || toks[k2] == Token::Newline) {
            return Err(AssembleError::Syntax { token: k2 });
        }
        Ok((Statement::Basic { operation, a, b }, k2))
    } else if let Some(operation) = parse_nonbasic_operation(src, start, end) {
        let (a, k1) = match parse_value(src, toks, k + 1) {
            Ok(parsed) => parsed,
            Err(e) => {
                return Err(e);
            },
        };
        if !(k1 >= toks.len() || toks[k1] == Token::Newline) {
            return Err(AssembleError::Syntax { token: k1 });
        }
        Ok((Statement::NonBasic { operation, a }, k1))
    } else {
        Err(AssembleError::UnknownMnemonic { token: k })
    }
}

/// Appending to the statements so far commutes with the rest of the outcome.
proof fn lemma_prepend_statements_assoc(
    a: Seq<Statement>,
    b: Seq<Statement>,
    r: Result<Seq<Statement>, AssembleError>,
)
    ensures
        prepend_statements(a, prepend_statements(b, r)) == prepend_statements(a + b, r),
{
    if let Ok(x) = r {
        assert(a + (b + x) =~= (a + b) + x);
    }
}

/// The statements of the tokens `toks` of `src`.
pub fn get_meta_instructions(src: &[u8], toks: &[Token]) -> (r: Result<Vec<Statement>, AssembleError>)
    requires
        tokens_in(src@, toks@),
        toks@.len() < usize::MAX - 8,
    ensures
        match r {
            Ok(stmts) => parse_spec(src@, toks@) == Ok::<Seq<Statement>, AssembleError>(stmts@) && statements_in(toks@, stmts@),
            Err(e) => parse_spec(src@, toks@) == Err::<Seq<Statement>, AssembleError>(e),
        },
{
    let mut stmts: Vec<Statement> = Vec::new();
    let mut k: usize = 0;
    while k < toks.len()
        invariant
            k <= toks@.len(),
            tokens_in(src@, toks@),
            toks@.len() < usize::MAX - 8,
            parse_spec(src@, toks@) == prepend_statements(stmts@, parse_from(src@, toks@, k as int)),
            statements_in(toks@, stmts@),
        decreases toks@.len() - k,
    {
        let ghost before = stmts@;
        match toks[k] {
            Token::Newline => {
                k = k + 1;
            },
            Token::Colon => {
                let is_label = k + 1 < toks.len() && match toks[k + 1] {
                    Token::Name { start, end } => {
                        assert(toks@[k + 1] is Name);
                        !(0x30u8 <= src[start] && src[start] <= 0x39u8)
                    },
                    _ => false,
                };
                if !is_label {
                    return Err(AssembleError::Syntax { token: k + 1 });
                }
                let st = Statement::Label { token: k + 1 };
                stmts.push(st);
                proof {
                    assert(stmts@ =~= before + seq![st]);
                    lemma_prepend_statements_assoc(before, seq![st], parse_from(src@, toks@, k + 2));
                }
                k = k + 2;
            },
            Token::Name { .. } => {
                match parse_instruction_at(src, toks, k) {
                    Ok((st, next)) => {
                        stmts.push(st);
                        proof {
                            assert(stmts@ =~= before + seq![st]);
                            lemma_prepend_statements_assoc(
                                before,
                                seq![st],
                                parse_from(src@, toks@, next as int),
                            );
                        }
                        k = next;
                    },
                    Err(e) => {
                        return Err(e);
                    },
                }
            },
            _ => {
                return Err(AssembleError::Syntax { token: k });
            },
        }
    }
    assert(stmts@ + Seq::<Statement>::empty() =~= stmts@);
    Ok(stmts)
}

} // verus!
