use dcpu16::{assemble, Register, DCPU16};

const SAMPLE: [u16; 28] = [
    0x7c01, 0x0030, 0x7de1, 0x1000, 0x0020, 0x7803, 0x1000, 0xc00d, 0x7dc1, 0x001a, 0xa861,
    0x7c01, 0x2000, 0x2161, 0x2000, 0x8463, 0x806d, 0x7dc1, 0x000d, 0x9031, 0x7c10, 0x0018,
    0x7dc1, 0x001a, 0x9037, 0x61c1, 0x7dc1, 0x001a,
];

fn run_source(source: &str) -> (Vec<u16>, DCPU16<'static>) {
    let image = assemble(source).expect("source assembles");
    let leaked: &'static [u16] = Box::leak(image.clone().into_boxed_slice());
    let mut cpu = DCPU16::new(leaked);
    cpu.run();
    (image, cpu)
}

#[test]
fn sample_program_runs_to_crash_loop() {
    let mut cpu = DCPU16::new(&SAMPLE);
    cpu.run();
    assert_eq!(cpu.program_counter(), 0x001a);
    assert_eq!(cpu.program_counter(), (SAMPLE.len() - 2) as u16);
    assert_eq!(cpu.register(Register::A), 0x2000);
    assert_eq!(cpu.register(Register::X), 0x40);
    let ram = cpu.ram();
    assert_eq!(ram[0x1000], 0x20);
    for k in 1..=10 {
        assert_eq!(ram[0x2000 + k], ram[0x2000]);
    }
    assert!(!cpu.decode_fault());
}

#[test]
fn new_machine_is_zeroed_with_stack_at_top() {
    let program = [0x0001u16];
    let cpu = DCPU16::new(&program);
    assert_eq!(cpu.program_counter(), 0);
    assert_eq!(cpu.stack_pointer(), 0xffff);
    assert_eq!(cpu.overflow(), 0);
    assert_eq!(cpu.register(Register::J), 0);
    assert!(cpu.ram().iter().all(|w| *w == 0));
}

#[test]
fn set_to_small_literal_changes_nothing_but_pc() {
    // SET 0x1f, A: destination field 0x3f, the inline literal 0x1f.
    let program = [0x0001 | (0x3f << 4), 0x0001 | (0x3f << 4)];
    let mut cpu = DCPU16::new(&program);
    assert!(cpu.step());
    assert_eq!(cpu.program_counter(), 1);
    assert_eq!(cpu.stack_pointer(), 0xffff);
    assert_eq!(cpu.overflow(), 0);
    assert_eq!(cpu.register(Register::A), 0);
    assert!(cpu.ram().iter().all(|w| *w == 0));
}

#[test]
fn add_to_next_word_literal_leaves_registers_and_ram() {
    // SET A, 5; ADD 0x1234, A
    let (_, cpu) = run_source("SET A, 5\nADD 0x1234, A\n:end SET PC, end");
    assert_eq!(cpu.register(Register::A), 5);
    assert!(cpu.ram().iter().all(|w| *w == 0));
}

#[test]
fn add_wraps_and_sets_carry() {
    let (_, cpu) = run_source("SET A, 0xFFFF\nADD A, 1\n:end SET PC, end");
    assert_eq!(cpu.register(Register::A), 0);
    assert_eq!(cpu.overflow(), 1);
}

#[test]
fn sub_wraps_and_sets_borrow() {
    let (_, cpu) = run_source("SET A, 0\nSUB A, 1\n:end SET PC, end");
    assert_eq!(cpu.register(Register::A), 0xffff);
    assert_eq!(cpu.overflow(), 0xffff);
}

#[test]
fn mul_keeps_upper_half_in_overflow() {
    let (_, cpu) = run_source("SET A, 0x8000\nMUL A, 2\n:end SET PC, end");
    assert_eq!(cpu.register(Register::A), 0);
    assert_eq!(cpu.overflow(), 1);
    let (_, cpu) = run_source("SET A, 0x1234\nMUL A, 0x100\n:end SET PC, end");
    assert_eq!(cpu.register(Register::A), 0x3400);
    assert_eq!(cpu.overflow(), 0x12);
}

#[test]
fn shl_keeps_shifted_out_bits_in_overflow() {
    let (_, cpu) = run_source("SET A, 0x8001\nSHL A, 1\n:end SET PC, end");
    assert_eq!(cpu.register(Register::A), 0x0002);
    assert_eq!(cpu.overflow(), 0x0001);
    let (_, cpu) = run_source("SET A, 0xFFFF\nSHL A, 40\n:end SET PC, end");
    assert_eq!(cpu.register(Register::A), 0);
    assert_eq!(cpu.overflow(), 0);
}

#[test]
fn shr_keeps_shifted_out_bits_in_overflow() {
    let (_, cpu) = run_source("SET A, 0x0003\nSHR A, 1\n:end SET PC, end");
    assert_eq!(cpu.register(Register::A), 0x0001);
    assert_eq!(cpu.overflow(), 0x8000);
    let (_, cpu) = run_source("SET A, 0x1234\nSHR A, 20\n:end SET PC, end");
    assert_eq!(cpu.register(Register::A), 0);
    assert_eq!(cpu.overflow(), 0x0123);
}

#[test]
fn div_and_mod() {
    let (_, cpu) = run_source("SET A, 7\nDIV A, 2\nSET B, 7\nMOD B, 4\n:end SET PC, end");
    assert_eq!(cpu.register(Register::A), 3);
    assert_eq!(cpu.overflow(), 0x8000);
    assert_eq!(cpu.register(Register::B), 3);
}

#[test]
fn div_by_zero_clears_destination_and_overflow() {
    let (_, cpu) = run_source("SET O, 0x55\nSET A, 9\nDIV A, 0\n:end SET PC, end");
    assert_eq!(cpu.register(Register::A), 0);
    assert_eq!(cpu.overflow(), 0);
}

#[test]
fn mod_by_zero_clears_destination_keeps_overflow() {
    let (_, cpu) = run_source("SET O, 0x55\nSET A, 9\nMOD A, 0\n:end SET PC, end");
    assert_eq!(cpu.register(Register::A), 0);
    assert_eq!(cpu.overflow(), 0x55);
}

#[test]
fn bitwise_operations() {
    let (_, cpu) = run_source(
        "SET A, 0xF0F0\nAND A, 0xFF00\nSET B, 0x0F00\nBOR B, 0x00F0\nSET C, 0xFFFF\nXOR C, 0x0F0F\n:end SET PC, end",
    );
    assert_eq!(cpu.register(Register::A), 0xF000);
    assert_eq!(cpu.register(Register::B), 0x0FF0);
    assert_eq!(cpu.register(Register::C), 0xF0F0);
}

#[test]
fn failed_test_skips_exactly_the_next_instruction() {
    // IFE A, 1 fails (A is 0), so the two-word SET B, 0x1234 is skipped and
    // SET C, 1 runs.
    let program = assemble("IFE A, 1\nSET B, 0x1234\nSET C, 1\n:end SET PC, end").unwrap();
    let mut cpu = DCPU16::new(&program);
    assert!(cpu.step());
    assert_eq!(cpu.program_counter(), 1);
    assert!(cpu.skips_next_instruction());
    assert!(cpu.step());
    assert_eq!(cpu.program_counter(), 3);
    assert!(!cpu.skips_next_instruction());
    assert_eq!(cpu.register(Register::B), 0);
    assert!(cpu.step());
    assert_eq!(cpu.register(Register::C), 1);
}

#[test]
fn conditionals_that_hold_do_not_skip() {
    let (_, cpu) = run_source(
        "SET A, 3\nIFN A, 2\nSET B, 1\nIFG A, 2\nSET C, 1\nIFB A, 1\nSET X, 1\nIFE A, 3\nSET Y, 1\n:end SET PC, end",
    );
    assert_eq!(cpu.register(Register::B), 1);
    assert_eq!(cpu.register(Register::C), 1);
    assert_eq!(cpu.register(Register::X), 1);
    assert_eq!(cpu.register(Register::Y), 1);
}

#[test]
fn ifb_tests_common_bits() {
    let (_, cpu) = run_source("SET A, 2\nIFB A, 1\nSET B, 1\n:end SET PC, end");
    assert_eq!(cpu.register(Register::B), 0);
}

#[test]
fn jump_to_self_ends_run_at_that_address() {
    // SET PC, 0 at address 0 with an inline literal.
    let program = [0x0001u16 | (0x1c << 4) | (0x20 << 10)];
    let mut cpu = DCPU16::new(&program);
    assert!(!cpu.step());
    assert_eq!(cpu.program_counter(), 0);
    // SET PC, 2 at address 2 with a next-word literal.
    let program = [0x0000u16, 0x0000, 0x7dc1, 0x0002];
    let mut cpu = DCPU16::new(&program);
    cpu.run();
    assert!(cpu.decode_fault());
    let program = [0x8401u16, 0x8401, 0x7dc1, 0x0002];
    let mut cpu = DCPU16::new(&program);
    cpu.run();
    assert_eq!(cpu.program_counter(), 2);
    assert!(!cpu.decode_fault());
}

#[test]
fn subroutine_call_and_return() {
    let source = "SET X, 4\nJSR sub\nSET PC, end\n:sub SHL X, 4\nSET PC, POP\n:end SET PC, end";
    let (image, cpu) = run_source(source);
    assert_eq!(image, vec![0x9031, 0x8c10, 0x95c1, 0x9037, 0x61c1, 0x95c1]);
    assert_eq!(cpu.register(Register::X), 0x40);
    assert_eq!(cpu.program_counter(), 5);
    assert_eq!(cpu.stack_pointer(), 0xffff);
    assert_eq!(cpu.ram()[0xfffe], 2);
}

#[test]
fn push_then_pop_restores_stack_pointer() {
    let (_, cpu) = run_source("SET PUSH, 7\nSET PUSH, 8\nSET A, POP\nSET B, PEEK\n:end SET PC, end");
    assert_eq!(cpu.register(Register::A), 8);
    assert_eq!(cpu.register(Register::B), 7);
    assert_eq!(cpu.stack_pointer(), 0xfffe);
    assert_eq!(cpu.ram()[0xfffe], 7);
}

#[test]
fn set_push_pop_resolves_a_before_b() {
    // SET PUSH, POP: PUSH moves SP down, POP moves it back up, and the value
    // popped (from the new top) is stored at that same cell.
    let (_, cpu) = run_source("SET PUSH, 5\nSET PUSH, POP\n:end SET PC, end");
    assert_eq!(cpu.stack_pointer(), 0xfffe);
    assert_eq!(cpu.ram()[0xfffe], 5);
    // SET [SP], POP: PEEK at the top, then pop.
    let (_, cpu) = run_source("SET PUSH, 9\nSET PEEK, POP\n:end SET PC, end");
    assert_eq!(cpu.stack_pointer(), 0xffff);
    assert_eq!(cpu.ram()[0xfffe], 9);
}

#[test]
fn register_offset_address_wraps() {
    let (_, cpu) = run_source("SET I, 2\nSET [0xFFFF+I], 0x42\n:end SET PC, end");
    assert_eq!(cpu.ram()[0x0001], 0x42);
}

#[test]
fn end_of_program_stops_run() {
    let program = [0x8401u16, 0x8801];
    let mut cpu = DCPU16::new(&program);
    cpu.run();
    assert_eq!(cpu.program_counter(), 2);
    assert_eq!(cpu.register(Register::A), 2);
    let mut empty = DCPU16::new(&[]);
    assert!(!empty.step());
    assert_eq!(empty.program_counter(), 0);
}

#[test]
fn truncated_instruction_stops_without_effect() {
    let program = [0x7c01u16];
    let mut cpu = DCPU16::new(&program);
    assert!(!cpu.step());
    assert_eq!(cpu.program_counter(), 0);
    assert_eq!(cpu.register(Register::A), 0);
}

#[test]
fn reserved_instruction_faults() {
    let program = [0x0000u16, 0x8401];
    let mut cpu = DCPU16::new(&program);
    assert!(!cpu.step());
    assert!(cpu.decode_fault());
    assert_eq!(cpu.program_counter(), 0);
}

#[test]
fn writes_to_special_registers_are_live() {
    let (_, cpu) = run_source("SET SP, 0x1000\nSET O, 3\n:end SET PC, end");
    assert_eq!(cpu.stack_pointer(), 0x1000);
    assert_eq!(cpu.overflow(), 3);
}

#[test]
fn dump_state_lists_registers() {
    let program = [0x8401u16];
    let cpu = DCPU16::new(&program);
    assert_eq!(
        cpu.dump_state(),
        "Registers: A=0000 B=0000 C=0000 X=0000 Y=0000 Z=0000 I=0000 J=0000 PC=0000 SP=FFFF O=0000"
    );
}

#[test]
fn hexdump_program_rows() {
    let program = [0x7c01u16, 0x0030, 0x7de1];
    let cpu = DCPU16::new(&program);
    assert_eq!(cpu.hexdump_program(2), "0000: 7C01 0030\n0002: 7DE1\n");
}

#[test]
fn hexdump_ram_rows() {
    let (_, cpu) = run_source("SET [0x8001], 0xABCD\n:end SET PC, end");
    let dump = cpu.hexdump_ram(0x8000);
    let rows: Vec<&str> = dump.lines().collect();
    assert_eq!(rows.len(), 2);
    assert!(rows[0].starts_with("0000: 0000 0000"));
    assert!(rows[1].starts_with("8000: 0000 ABCD 0000"));
    assert_eq!(dump.len(), 2 * (5 + 5 * 0x8000 + 1));
}
