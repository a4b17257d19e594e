use dcpu16::{assemble, AssembleError, InstructionWord, Register, DCPU16};

const SAMPLE_SOURCE: &str = "
        ; Try some basic stuff
                      SET A, 0x30              ; 7c01 0030
                      SET [0x1000], 0x20       ; 7de1 1000 0020
                      SUB A, [0x1000]          ; 7803 1000
                      IFN A, 0x10              ; c00d
                         SET PC, crash

        ; Do a loopy thing
                      SET I, 10                ; a861
                      SET A, 0x2000            ; 7c01 2000
        :loop         SET [0x2000+I], [A]      ; 2161 2000
                      SUB I, 1                 ; 8463
                      IFN I, 0                 ; 806d
                         SET PC, loop

        ; Call a subroutine
                      SET X, 0x4               ; 9031
                      JSR testsub
                      SET PC, crash

        :testsub      SHL X, 4                 ; 9037
                      SET PC, POP              ; 61c1

        ; Hang forever. X should now be 0x40 if everything went right.
        :crash        SET PC, crash
";

#[test]
fn sample_source_assembles_with_short_label_literals() {
    let image = assemble(SAMPLE_SOURCE).unwrap();
    assert_eq!(
        image,
        vec![
            0x7c01, 0x0030, 0x7de1, 0x1000, 0x0020, 0x7803, 0x1000, 0xc00d, 0xd9c1, 0xa861,
            0x7c01, 0x2000, 0x2161, 0x2000, 0x8463, 0x806d, 0xb1c1, 0x9031, 0xd010, 0xd9c1,
            0x9037, 0x61c1, 0xd9c1,
        ]
    );
}

#[test]
fn sample_source_runs_like_the_sample_image() {
    let image = assemble(SAMPLE_SOURCE).unwrap();
    let mut cpu = DCPU16::new(&image);
    cpu.run();
    assert_eq!(cpu.program_counter(), 22);
    assert_eq!(cpu.register(Register::A), 0x2000);
    assert_eq!(cpu.register(Register::X), 0x40);
    assert_eq!(cpu.ram()[0x1000], 0x20);
    for k in 1..=10 {
        assert_eq!(cpu.ram()[0x2000 + k], cpu.ram()[0x2000]);
    }
}

#[test]
fn assembled_image_decodes_back_instruction_by_instruction() {
    let image = assemble(SAMPLE_SOURCE).unwrap();
    let mut at = 0usize;
    let mut count = 0;
    let mut starts = Vec::new();
    while at < image.len() {
        starts.push(at);
        let word = InstructionWord::decode(image[at]);
        assert!(!matches!(word, InstructionWord::NonBasic(dcpu16::NonBasicInstruction::Reserved)));
        at += word.length_in_words();
        count += 1;
    }
    assert_eq!(at, image.len());
    assert_eq!(count, 17);
    // `loop`, `testsub` and `crash` sit where their instructions start.
    assert_eq!(starts[7], 12);
    assert_eq!(starts[14], 20);
    assert_eq!(starts[16], 22);
    assert_eq!(image[starts[16]], 0x0001 | (0x1c << 4) | ((0x20 + 22) << 10));
}

#[test]
fn encodes_each_operand_form() {
    assert_eq!(assemble("SET A, 0x30").unwrap(), vec![0x7c01, 0x0030]);
    assert_eq!(assemble("SET [0x1000], 0x20").unwrap(), vec![0x7de1, 0x1000, 0x0020]);
    assert_eq!(assemble("SUB A, [0x1000]").unwrap(), vec![0x7803, 0x1000]);
    assert_eq!(assemble("IFN A, 0x10").unwrap(), vec![0xc00d]);
    assert_eq!(assemble("SET [0x2000+I], [A]").unwrap(), vec![0x2161, 0x2000]);
    assert_eq!(assemble("SET PC, POP").unwrap(), vec![0x61c1]);
    assert_eq!(assemble("SET PUSH, PEEK").unwrap(), vec![0x0001 | (0x1a << 4) | (0x19 << 10)]);
    assert_eq!(assemble("SET SP, O").unwrap(), vec![0x0001 | (0x1b << 4) | (0x1d << 10)]);
    assert_eq!(assemble("JSR 0x20").unwrap(), vec![0x7c10, 0x0020]);
    assert_eq!(assemble("JSR 31").unwrap(), vec![0x0010 | (0x3f << 10)]);
    assert_eq!(assemble("SET [0x10+J], 1").unwrap(), vec![0x0001 | (0x17 << 4) | (0x21 << 10), 0x0010]);
}

#[test]
fn blanks_and_comments_are_ignored() {
    assert_eq!(assemble("  SET   A ,  1 ; one\n\n; nothing\r\n").unwrap(), vec![0x8401]);
    assert_eq!(assemble("").unwrap(), Vec::<u16>::new());
}

#[test]
fn forward_label_past_0x1f_grows_its_instruction() {
    let mut source = String::from("SET PC, end\n");
    for _ in 0..11 {
        source.push_str("SET [0x1000], 0x1234\n");
    }
    source.push_str(":end SET PC, end\n");
    let image = assemble(&source).unwrap();
    assert_eq!(image.len(), 37);
    assert_eq!(&image[0..2], &[0x7dc1, 0x0023]);
    assert_eq!(&image[35..37], &[0x7dc1, 0x0023]);
    let mut cpu = DCPU16::new(&image);
    cpu.run();
    assert_eq!(cpu.program_counter(), 0x23);
}

#[test]
fn label_at_0x1f_stays_short() {
    let mut source = String::from("SET PC, end\n");
    for _ in 0..10 {
        source.push_str("SET [0x1000], 0x1234\n");
    }
    source.push_str(":end SET PC, end\n");
    let image = assemble(&source).unwrap();
    assert_eq!(image[0], 0x0001 | (0x1c << 4) | ((0x20 + 0x1f) << 10));
    assert_eq!(image.len(), 32);
}

#[test]
fn unexpected_character() {
    assert_eq!(assemble("SET A, $1"), Err(AssembleError::UnexpectedCharacter { position: 7 }));
}

#[test]
fn missing_comma_is_a_syntax_error() {
    assert_eq!(assemble("SET A B"), Err(AssembleError::Syntax { token: 2 }));
    assert_eq!(assemble("SET A, 1, 2"), Err(AssembleError::Syntax { token: 4 }));
}

#[test]
fn unknown_mnemonic() {
    assert_eq!(assemble("FOO A, 1"), Err(AssembleError::UnknownMnemonic { token: 0 }));
}

#[test]
fn malformed_literal() {
    assert_eq!(assemble("SET A, 0xZZ"), Err(AssembleError::InvalidLiteral { token: 3 }));
    assert_eq!(assemble("SET A, 12AB"), Err(AssembleError::InvalidLiteral { token: 3 }));
}

#[test]
fn literal_out_of_range() {
    assert_eq!(assemble("SET A, 70000"), Err(AssembleError::LiteralOutOfRange { token: 3 }));
    assert_eq!(assemble("SET A, 0x10000"), Err(AssembleError::LiteralOutOfRange { token: 3 }));
    assert_eq!(assemble("SET A, 65535").unwrap(), vec![0x7c01, 0xffff]);
}

#[test]
fn label_as_destination() {
    assert_eq!(
        assemble("SET foo, 1\n:foo SET A, 1"),
        Err(AssembleError::LabelAsDestination { token: 1 })
    );
}

#[test]
fn duplicate_label() {
    assert_eq!(
        assemble(":a SET A, 1\n:a SET B, 1"),
        Err(AssembleError::DuplicateLabel { token: 8 })
    );
}

#[test]
fn undefined_label() {
    assert_eq!(assemble("SET PC, nowhere"), Err(AssembleError::UndefinedLabel { token: 3 }));
}

#[test]
fn program_too_long() {
    let mut source = String::new();
    for _ in 0..22000 {
        source.push_str("SET [0x1000], 0x1234\n");
    }
    assert_eq!(assemble(&source), Err(AssembleError::ProgramTooLong));
}
