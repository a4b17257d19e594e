//! Textual rendering of registers, operands and resolved instructions: the
//! mnemonic form (`SET A, 0x30`) and a human-readable form (`A <- 0x30`).
use vstd::prelude::*;
use vstd::string::StringExecFns;

use crate::hex::{append_hex, hex_text};
use crate::instruction::{InstructionWord, NonBasicInstruction};
use crate::instruction_argument::{InstructionArgument, InstructionArgumentDefinition};
use crate::instruction_with_operands::{InstructionWithOperands, ResolvedValue};
use crate::register::Register;
use crate::Word;

verus! {

/// Renders a value as text.
pub trait Disassemble {
    /// The mnemonic text.
    spec fn mnemonic_text(&self) -> Seq<char>;

    /// The human-readable text.
    spec fn human_text(&self) -> Seq<char>;

    /// Gets the mnemonic for the value.
    fn disassemble(&self) -> (r: String)
        ensures
            r@ == self.mnemonic_text(),
    ;

    /// Gets a human-readable string for the value.
    fn disassemble_human(&self) -> (r: String)
        ensures
            r@ == self.human_text(),
    ;
}

/// The letter of a register.
pub open spec fn register_text(r: Register) -> Seq<char> {
    match r {
        Register::A => "A"@,
        Register::B => "B"@,
        Register::C => "C"@,
        Register::X => "X"@,
        Register::Y => "Y"@,
        Register::Z => "Z"@,
        Register::I => "I"@,
        Register::J => "J"@,
    }
}

fn register_str(r: Register) -> (s: &'static str)
    ensures
        s@ == register_text(r),
{
    match r {
        Register::A => "A",
        Register::B => "B",
        Register::C => "C",
        Register::X => "X",
        Register::Y => "Y",
        Register::Z => "Z",
        Register::I => "I",
        Register::J => "J",
    }
}

impl Disassemble for Register {
    open spec fn mnemonic_text(&self) -> Seq<char> {
        register_text(*self)
    }

    open spec fn human_text(&self) -> Seq<char> {
        register_text(*self)
    }

    fn disassemble(&self) -> (r: String) {
        String::from_str(register_str(*self))
    }

    fn disassemble_human(&self) -> (r: String) {
        self.disassemble()
    }
}

/// The word a site carries, or 0 if it carries none.
pub open spec fn carried_word(site: InstructionArgument) -> Word {
    match site.literal_of() {
        Some(w) => w,
        None => 0,
    }
}

/// `0x` and the word in at least two upper-case hex digits.
pub open spec fn literal_text(w: Word) -> Seq<char> {
    "0x"@ + hex_text(w, 2, true)
}

impl Disassemble for ResolvedValue {
    open spec fn mnemonic_text(&self) -> Seq<char> {
        match self.argument_definition {
            InstructionArgumentDefinition::Register { register } => register_text(register),
            InstructionArgumentDefinition::Literal { value } => literal_text(value),
            InstructionArgumentDefinition::NextWordLiteral => literal_text(self.resolved_value),
            InstructionArgumentDefinition::AtAddressFromNextWord => "["@ + literal_text(
                carried_word(self.argument),
            ) + "]"@,
            InstructionArgumentDefinition::OfOverflow => "O"@,
            InstructionArgumentDefinition::OfProgramCounter => "PC"@,
            InstructionArgumentDefinition::OfStackPointer => "SP"@,
            InstructionArgumentDefinition::AtAddressFromNextWordPlusRegister { register } => "["@
                + literal_text(carried_word(self.argument)) + "+"@ + register_text(register)
                + "]"@,
            InstructionArgumentDefinition::Pop => "POP"@,
            InstructionArgumentDefinition::Peek => "PEEK"@,
            InstructionArgumentDefinition::Push => "PUSH"@,
            InstructionArgumentDefinition::AtAddressFromRegister { register } => "["@
                + register_text(register) + "]"@,
        }
    }

    open spec fn human_text(&self) -> Seq<char> {
        match self.argument_definition {
            InstructionArgumentDefinition::AtAddressFromNextWord => "RAM["@ + literal_text(
                carried_word(self.argument),
            ) + "]"@,
            InstructionArgumentDefinition::AtAddressFromNextWordPlusRegister { register } => "RAM["@
                + literal_text(carried_word(self.argument)) + " + "@ + register_text(register)
                + "]"@,
            InstructionArgumentDefinition::AtAddressFromRegister { register } => "RAM["@
                + register_text(register) + "]"@,
            InstructionArgumentDefinition::Pop => "pop value from stack"@,
            InstructionArgumentDefinition::Peek => "current stack value"@,
            InstructionArgumentDefinition::Push => "push value to stack"@,
            _ => self.mnemonic_text(),
        }
    }

    fn disassemble(&self) -> (r: String) {
        let mut s = String::new();
        match self.argument_definition {
            InstructionArgumentDefinition::Register { register } => {
                s.append(register_str(register));
            },
            InstructionArgumentDefinition::Literal { value } => {
                s.append("0x");
                append_hex(&mut s, value, 2, true);
            },
            InstructionArgumentDefinition::NextWordLiteral => {
                s.append("0x");
                append_hex(&mut s, self.resolved_value, 2, true);
            },
            InstructionArgumentDefinition::AtAddressFromNextWord => {
                s.append("[0x");
                append_hex(&mut s, word_of(self.argument), 2, true);
                s.append("]");
            },
            InstructionArgumentDefinition::OfOverflow => {
                s.append("O");
            },
            InstructionArgumentDefinition::OfProgramCounter => {
                s.append("PC");
            },
            InstructionArgumentDefinition::OfStackPointer => {
                s.append("SP");
            },
            InstructionArgumentDefinition::AtAddressFromNextWordPlusRegister { register } => {
                s.append("[0x");
                append_hex(&mut s, word_of(self.argument), 2, true);
                s.append("+");
                s.append(register_str(register));
                s.append("]");
            },
            InstructionArgumentDefinition::Pop => {
                s.append("POP");
            },
            InstructionArgumentDefinition::Peek => {
                s.append("PEEK");
            },
            InstructionArgumentDefinition::Push => {
                s.append("PUSH");
            },
            InstructionArgumentDefinition::AtAddressFromRegister { register } => {
                s.append("[");
                s.append(register_str(register));
                s.append("]");
            },
        }
        proof {
            reveal_strlit("[0x");
            reveal_strlit("[");
            reveal_strlit("0x");
            assert("[0x"@ =~= "["@ + "0x"@);
        }
        assert(s@ =~= self.mnemonic_text());
        s
    }

    fn disassemble_human(&self) -> (r: String) {
        let mut s = String::new();
        match self.argument_definition {
            InstructionArgumentDefinition::AtAddressFromNextWord => {
                s.append("RAM[0x");
                append_hex(&mut s, word_of(self.argument), 2, true);
                s.append("]");
            },
            InstructionArgumentDefinition::AtAddressFromNextWordPlusRegister { register } => {
                s.append("RAM[0x");
                append_hex(&mut s, word_of(self.argument), 2, true);
                s.append(" + ");
                s.append(register_str(register));
                s.append("]");
            },
            InstructionArgumentDefinition::AtAddressFromRegister { register } => {
                s.append("RAM[");
                s.append(register_str(register));
                s.append("]");
            },
            InstructionArgumentDefinition::Pop => {
                s.append("pop value from stack");
            },
            InstructionArgumentDefinition::Peek => {
                s.append("current stack value");
            },
            InstructionArgumentDefinition::Push => {
                s.append("push value to stack");
            },
            _ => {
                s = self.disassemble();
            },
        }
        proof {
            reveal_strlit("RAM[0x");
            reveal_strlit("RAM[");
            reveal_strlit("0x");
            assert("RAM[0x"@ =~= "RAM["@ + "0x"@);
        }
        assert(s@ =~= self.human_text());
        s
    }
}

/// The word a site carries, or 0.
fn word_of(site: InstructionArgument) -> (r: Word)
    ensures
        r == carried_word(site),
{
    match site.get_literal() {
        Some(w) => w,
        None => 0,
    }
}

/// The mnemonic of an instruction.
pub open spec fn mnemonic_of(word: InstructionWord) -> Seq<char> {
    match word {
        InstructionWord::NonBasic(nbi) => match nbi {
            NonBasicInstruction::Jsr { .. } => "JSR"@,
            NonBasicInstruction::Reserved => "RESERVED"@,
        },
        InstructionWord::SetValue { .. } => "SET"@,
        InstructionWord::Add { .. } => "ADD"@,
        InstructionWord::Sub { .. } => "SUB"@,
        InstructionWord::Mul { .. } => "MUL"@,
        InstructionWord::Div { .. } => "DIV"@,
        InstructionWord::Mod { .. } => "MOD"@,
        InstructionWord::Shl { .. } => "SHL"@,
        InstructionWord::Shr { .. } => "SHR"@,
        InstructionWord::And { .. } => "AND"@,
        InstructionWord::Bor { .. } => "BOR"@,
        InstructionWord::Xor { .. } => "XOR"@,
        InstructionWord::Ife { .. } => "IFE"@,
        InstructionWord::Ifn { .. } => "IFN"@,
        InstructionWord::Ifg { .. } => "IFG"@,
        InstructionWord::Ifb { .. } => "IFB"@,
    }
}

fn mnemonic_str(word: InstructionWord) -> (s: &'static str)
    ensures
        s@ == mnemonic_of(word),
{
    match word {
        InstructionWord::NonBasic(nbi) => match nbi {
            NonBasicInstruction::Jsr { .. } => "JSR",
            NonBasicInstruction::Reserved => "RESERVED",
        },
        InstructionWord::SetValue { .. } => "SET",
        InstructionWord::Add { .. } => "ADD",
        InstructionWord::Sub { .. } => "SUB",
        InstructionWord::Mul { .. } => "MUL",
        InstructionWord::Div { .. } => "DIV",
        InstructionWord::Mod { .. } => "MOD",
        InstructionWord::Shl { .. } => "SHL",
        InstructionWord::Shr { .. } => "SHR",
        InstructionWord::And { .. } => "AND",
        InstructionWord::Bor { .. } => "BOR",
        InstructionWord::Xor { .. } => "XOR",
        InstructionWord::Ife { .. } => "IFE",
        InstructionWord::Ifn { .. } => "IFN",
        InstructionWord::Ifg { .. } => "IFG",
        InstructionWord::Ifb { .. } => "IFB",
    }
}

/// The text of an optional second operand: empty if there is none.
pub open spec fn second_text(b: Option<ResolvedValue>, human: bool) -> Seq<char> {
    match b {
        Some(b) => if human {
            b.human_text()
        } else {
            b.mnemonic_text()
        },
        None => Seq::empty(),
    }
}

/// The human-readable form of an instruction with operand texts `a` and `b`.
pub open spec fn human_of(word: InstructionWord, a: Seq<char>, b: Seq<char>, a_mnemonic: Seq<char>) -> Seq<char> {
    match word {
        InstructionWord::NonBasic(nbi) => match nbi {
            NonBasicInstruction::Jsr { .. } => "jump to subroutine at "@ + a_mnemonic,
            NonBasicInstruction::Reserved => "reserved"@,
        },
        InstructionWord::SetValue { .. } => a + " <- "@ + b,
        InstructionWord::Add { .. } => a + " <- "@ + a + " + "@ + b,
        InstructionWord::Sub { .. } => a + " <- "@ + a + " - "@ + b,
        InstructionWord::Mul { .. } => a + " <- "@ + a + " * "@ + b,
        InstructionWord::Div { .. } => a + " <- "@ + a + " / "@ + b,
        InstructionWord::Mod { .. } => a + " <- "@ + a + " % "@ + b,
        InstructionWord::Shl { .. } => a + " <- "@ + a + " << "@ + b,
        InstructionWord::Shr { .. } => a + " <- "@ + a + " >> "@ + b,
        InstructionWord::And { .. } => a + " <- "@ + a + " & "@ + b,
        InstructionWord::Bor { .. } => a + " <- "@ + a + " | "@ + b,
        InstructionWord::Xor { .. } => a + " <- "@ + a + " ^ "@ + b,
        InstructionWord::Ife { .. } => "execute next instruction if "@ + a + " == "@ + b,
        InstructionWord::Ifn { .. } => "execute next instruction if "@ + a + " != "@ + b,
        InstructionWord::Ifg { .. } => "execute next instruction if "@ + a + " > "@ + b,
        InstructionWord::Ifb { .. } => "execute next instruction if ("@ + a + " & "@ + b
            + ") != 0"@,
    }
}

impl Disassemble for InstructionWithOperands {
    open spec fn mnemonic_text(&self) -> Seq<char> {
        match self.instruction {
            InstructionWord::NonBasic(nbi) => match nbi {
                NonBasicInstruction::Jsr { .. } => "JSR "@ + self.a.mnemonic_text(),
                NonBasicInstruction::Reserved => "RESERVED"@,
            },
            _ => mnemonic_of(self.instruction) + " "@ + self.a.mnemonic_text() + ", "@
                + second_text(self.b, false),
        }
    }

    open spec fn human_text(&self) -> Seq<char> {
        human_of(
            self.instruction,
            self.a.human_text(),
            second_text(self.b, true),
            self.a.mnemonic_text(),
        )
    }

    fn disassemble(&self) -> (r: String) {
        let mut s = String::new();
        match self.instruction {
            InstructionWord::NonBasic(nbi) => match nbi {
                NonBasicInstruction::Jsr { .. } => {
                    s.append("JSR ");
                    let a = self.a.disassemble();
                    s.append(a.as_str());
                },
                NonBasicInstruction::Reserved => {
                    s.append("RESERVED");
                },
            },
            _ => {
                s.append(mnemonic_str(self.instruction));
                s.append(" ");
                let a = self.a.disassemble();
                s.append(a.as_str());
                s.append(", ");
                if let Some(b) = self.b {
                    let b = b.disassemble();
                    s.append(b.as_str());
                }
            },
        }
        assert(s@ =~= self.mnemonic_text());
        s
    }

    fn disassemble_human(&self) -> (r: String) {
        let a = self.a.disassemble_human();
        let a = a.as_str();
        let b = match self.b {
            Some(b) => b.disassemble_human(),
            None => String::new(),
        };
        let b = b.as_str();
        let mut s = String::new();
        match self.instruction {
            InstructionWord::NonBasic(nbi) => match nbi {
                NonBasicInstruction::Jsr { .. } => {
                    s.append("jump to subroutine at ");
                    let target = self.a.disassemble();
                    s.append(target.as_str());
                },
                NonBasicInstruction::Reserved => {
                    s.append("reserved");
                },
            },
            InstructionWord::SetValue { .. } => {
                s.append(a);
                s.append(" <- ");
                s.append(b);
            },
            InstructionWord::Ife { .. } => {
                s.append("execute next instruction if ");
                s.append(a);
                s.append(" == ");
                s.append(b);
            },
            InstructionWord::Ifn { .. } => {
                s.append("execute next instruction if ");
                s.append(a);
                s.append(" != ");
                s.append(b);
            },
            InstructionWord::Ifg { .. } => {
                s.append("execute next instruction if ");
                s.append(a);
                s.append(" > ");
                s.append(b);
            },
            InstructionWord::Ifb { .. } => {
                s.append("execute next instruction if (");
                s.append(a);
                s.append(" & ");
                s.append(b);
                s.append(") != 0");
            },
            _ => {
                let operator = match self.instruction {
                    InstructionWord::Add { .. } => " + ",
                    InstructionWord::Sub { .. } => " - ",
                    InstructionWord::Mul { .. } => " * ",
                    InstructionWord::Div { .. } => " / ",
                    InstructionWord::Mod { .. } => " % ",
                    InstructionWord::Shl { .. } => " << ",
                    InstructionWord::Shr { .. } => " >> ",
                    InstructionWord::And { .. } => " & ",
                    InstructionWord::Bor { .. } => " | ",
                    _ => " ^ ",
                };
                s.append(a);
                s.append(" <- ");
                s.append(a);
                s.append(operator);
                s.append(b);
            },
        }
        assert(s@ =~= self.human_text());
        s
    }
}

/// The word an operand read after the instruction word, if its kind reads one.
pub open spec fn operand_word(v: ResolvedValue) -> Seq<Word> {
    if v.argument_definition.extra_words() > 0 {
        seq![carried_word(v.argument)]
    } else {
        Seq::empty()
    }
}

/// ` w` in four lower-case hex digits for each word.
pub open spec fn words_text(words: Seq<Word>) -> Seq<char>
    decreases words.len(),
{
    if words.len() == 0 {
        Seq::empty()
    } else {
        words_text(words.drop_last()) + " "@ + hex_text(words.last(), 4, false)
    }
}

impl InstructionWithOperands {
    /// The words after the instruction word, as the operands read them.
    pub open spec fn extra_words(self) -> Seq<Word> {
        operand_word(self.a) + match self.b {
            Some(b) => operand_word(b),
            None => Seq::empty(),
        }
    }

    /// The listing line: the raw words, the mnemonic and the human form,
    /// `7c01 0030 ; SET A, 0x30 => "A <- 0x30"`.
    pub open spec fn listing_text(self) -> Seq<char> {
        hex_text(self.raw_instruction, 4, false) + words_text(self.extra_words()) + " ; "@
            + self.mnemonic_text() + " => \""@ + self.human_text() + "\""@
    }

    /// Gets the listing line of the instruction.
    pub fn listing(&self) -> (r: String)
        ensures
            r@ == self.listing_text(),
    {
        let mut s = String::new();
        append_hex(&mut s, self.raw_instruction, 4, false);
        let mut words: Vec<Word> = Vec::new();
        if self.a.argument_definition.has_extra_words() {
            words.push(word_of(self.a.argument));
        }
        if let Some(b) = self.b {
            if b.argument_definition.has_extra_words() {
                words.push(word_of(b.argument));
            }
        }
        assert(words@ =~= self.extra_words());
        let ghost base = s@;
        let mut i: usize = 0;
        while i < words.len()
            invariant
                i <= words@.len(),
                s@ == base + words_text(words@.subrange(0, i as int)),
            decreases words@.len() - i,
        {
            s.append(" ");
            append_hex(&mut s, words[i], 4, false);
            proof {
                let next = words@.subrange(0, i + 1);
                assert(next.drop_last() =~= words@.subrange(0, i as int));
                assert(s@ =~= base + words_text(next));
            }
            i = i + 1;
        }
        assert(words@.subrange(0, words@.len() as int) =~= words@);
        s.append(" ; ");
        let mnemonic = self.disassemble();
        s.append(mnemonic.as_str());
        s.append(" => \"");
        let human = self.disassemble_human();
        s.append(human.as_str());
        s.append("\"");
        assert(s@ =~= self.listing_text());
        s
    }
}

} // verus!
