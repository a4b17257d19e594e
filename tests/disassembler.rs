use dcpu16::{Disassemble, Instruction, InstructionWithOperands, InstructionWord, Register, DCPU16};

fn resolved(words: &[u16]) -> InstructionWithOperands {
    let program = [0u16];
    let mut cpu = DCPU16::new(&program);
    let instruction = InstructionWord::from(words[0]);
    let instruction = match words.len() {
        1 => Instruction::OneWord { instruction, raw_instruction: words[0] },
        2 => Instruction::TwoWord { instruction, raw_instruction: words[0], raw_1st: words[1] },
        _ => Instruction::ThreeWord {
            instruction,
            raw_instruction: words[0],
            raw_1st: words[1],
            raw_2nd: words[2],
        },
    };
    InstructionWithOperands::resolve(&mut cpu, instruction)
}

#[test]
fn register_letters() {
    assert_eq!(Register::A.disassemble(), "A");
    assert_eq!(Register::J.disassemble_human(), "J");
}

#[test]
fn set_with_next_word_literal() {
    let ins = resolved(&[0x7c01, 0x0030]);
    assert_eq!(ins.disassemble(), "SET A, 0x30");
    assert_eq!(ins.disassemble_human(), "A <- 0x30");
    assert_eq!(ins.length_in_words(), 2);
}

#[test]
fn conditional_with_inline_literal() {
    let ins = resolved(&[0xc00d]);
    assert_eq!(ins.disassemble(), "IFN A, 0x10");
    assert_eq!(ins.disassemble_human(), "execute next instruction if A != 0x10");
}

#[test]
fn subroutine_jump() {
    let ins = resolved(&[0x7c10, 0x0018]);
    assert_eq!(ins.disassemble(), "JSR 0x18");
    assert_eq!(ins.disassemble_human(), "jump to subroutine at 0x18");
}

#[test]
fn memory_operands() {
    let ins = resolved(&[0x2161, 0x2000]);
    assert_eq!(ins.disassemble(), "SET [0x2000+I], [A]");
    assert_eq!(ins.disassemble_human(), "RAM[0x2000 + I] <- RAM[A]");
    let ins = resolved(&[0x7de1, 0x1000, 0x0020]);
    assert_eq!(ins.disassemble(), "SET [0x1000], 0x20");
    assert_eq!(ins.disassemble_human(), "RAM[0x1000] <- 0x20");
}

#[test]
fn stack_and_special_operands() {
    let ins = resolved(&[0x61c1]);
    assert_eq!(ins.disassemble(), "SET PC, POP");
    assert_eq!(ins.disassemble_human(), "PC <- pop value from stack");
    let ins = resolved(&[0x0001 | (0x1a << 4) | (0x19 << 10)]);
    assert_eq!(ins.disassemble(), "SET PUSH, PEEK");
    assert_eq!(ins.disassemble_human(), "push value to stack <- current stack value");
    let ins = resolved(&[0x0001 | (0x1b << 4) | (0x1d << 10)]);
    assert_eq!(ins.disassemble(), "SET SP, O");
}

#[test]
fn arithmetic_forms() {
    let ins = resolved(&[0x8402]);
    assert_eq!(ins.disassemble(), "ADD A, 0x01");
    assert_eq!(ins.disassemble_human(), "A <- A + 0x01");
    let ins = resolved(&[0x9037]);
    assert_eq!(ins.disassemble(), "SHL X, 0x04");
    assert_eq!(ins.disassemble_human(), "X <- X << 0x04");
    let ins = resolved(&[0x840f]);
    assert_eq!(ins.disassemble_human(), "execute next instruction if (A & 0x01) != 0");
}

#[test]
fn listing_shows_words_and_both_forms() {
    assert_eq!(resolved(&[0x7c01, 0x0030]).listing(), "7c01 0030 ; SET A, 0x30 => \"A <- 0x30\"");
    assert_eq!(
        resolved(&[0x7de1, 0x1000, 0x0020]).listing(),
        "7de1 1000 0020 ; SET [0x1000], 0x20 => \"RAM[0x1000] <- 0x20\""
    );
    assert_eq!(
        resolved(&[0xc00d]).listing(),
        "c00d ; IFN A, 0x10 => \"execute next instruction if A != 0x10\""
    );
}
