//! The machine as a mathematical state, and what one step does to it.
use vstd::prelude::*;

use crate::alu::{add_spec, div_spec, mod_spec, mul_spec, shl_spec, shr_spec, sub_spec, wrap};
use crate::instruction::{a_field, opcode_field, Instruction, InstructionWord, NonBasicInstruction};
use crate::instruction_argument::{InstructionArgument, InstructionArgumentDefinition};
use crate::instruction_with_operands::{InstructionWithOperands, ResolvedValue};
use crate::Word;

verus! {

/// Number of general-purpose registers.
pub const NUM_REGISTERS: usize = 8;

/// Number of words of RAM.
pub const NUM_RAM_WORDS: usize = 0x10000;

/// Initial stack pointer: the last word of RAM.
pub const STACK_POINTER_INIT: Word = 0xffff;

/// Everything an instruction can read or change.
pub struct MachineState {
    /// The eight registers, `A` to `J`.
    pub registers: Seq<Word>,
    /// The 65,536 words of RAM.
    pub ram: Seq<Word>,
    /// The program counter.
    pub pc: Word,
    /// The stack pointer.
    pub sp: Word,
    /// The overflow register.
    pub o: Word,
    /// Set when the next instruction is to be skipped.
    pub skip: bool,
    /// Set when a reserved instruction was met.
    pub fault: bool,
}

impl MachineState {
    /// The register file and RAM have their sizes.
    pub open spec fn wf(self) -> bool {
        self.registers.len() == NUM_REGISTERS && self.ram.len() == NUM_RAM_WORDS
    }

    /// A machine that has not run yet: every word zero, SP at the top of RAM.
    pub open spec fn initial() -> MachineState {
        MachineState {
            registers: Seq::new(NUM_REGISTERS as nat, |i: int| 0u16),
            ram: Seq::new(NUM_RAM_WORDS as nat, |i: int| 0u16),
            pc: 0,
            sp: STACK_POINTER_INIT,
            o: 0,
            skip: false,
            fault: false,
        }
    }
}

/// The RAM address `address + offset`, modulo 2^16.
pub open spec fn offset_address(address: Word, offset: Word) -> Word {
    wrap(address + offset)
}

/// The value a site holds in state `s`.
pub open spec fn read_site(s: MachineState, site: InstructionArgument) -> Word {
    match site {
        InstructionArgument::Register(r) => s.registers[r.index()],
        InstructionArgument::Literal(v) => v,
        InstructionArgument::Address(a) => s.ram[a as int],
        InstructionArgument::AddressOffset { address, register } => s.ram[offset_address(
            address,
            s.registers[register.index()],
        ) as int],
        InstructionArgument::ProgramCounter => s.pc,
        InstructionArgument::StackPointer => s.sp,
        InstructionArgument::Overflow => s.o,
    }
}

/// State `s` after `v` is stored to a site; a store to a literal changes nothing.
pub open spec fn write_site(s: MachineState, site: InstructionArgument, v: Word) -> MachineState {
    match site {
        InstructionArgument::Register(r) => MachineState {
            registers: s.registers.update(r.index(), v),
            ..s
        },
        InstructionArgument::Literal(_) => s,
        InstructionArgument::Address(a) => MachineState { ram: s.ram.update(a as int, v), ..s },
        InstructionArgument::AddressOffset { address, register } => MachineState {
            ram: s.ram.update(
                offset_address(address, s.registers[register.index()]) as int,
                v,
            ),
            ..s
        },
        InstructionArgument::ProgramCounter => MachineState { pc: v, ..s },
        InstructionArgument::StackPointer => MachineState { sp: v, ..s },
        InstructionArgument::Overflow => MachineState { o: v, ..s },
    }
}

/// The site an operand of kind `kind` denotes, with `operand` the extra word it
/// consumed, and the state after its stack effect.
pub open spec fn interpret(
    s: MachineState,
    kind: InstructionArgumentDefinition,
    operand: Option<Word>,
) -> (MachineState, InstructionArgument) {
    match kind {
        InstructionArgumentDefinition::Register { register } => (
            s,
            InstructionArgument::Register(register),
        ),
        InstructionArgumentDefinition::AtAddressFromRegister { register } => (
            s,
            InstructionArgument::Address(s.registers[register.index()]),
        ),
        InstructionArgumentDefinition::AtAddressFromNextWordPlusRegister { register } => (
            s,
            InstructionArgument::AddressOffset { address: operand.unwrap(), register },
        ),
        InstructionArgumentDefinition::Pop => (
            MachineState { sp: wrap(s.sp + 1), ..s },
            InstructionArgument::Address(s.sp),
        ),
        InstructionArgumentDefinition::Peek => (s, InstructionArgument::Address(s.sp)),
        InstructionArgumentDefinition::Push => (
            MachineState { sp: wrap(s.sp - 1), ..s },
            InstructionArgument::Address(wrap(s.sp - 1)),
        ),
        InstructionArgumentDefinition::OfStackPointer => (s, InstructionArgument::StackPointer),
        InstructionArgumentDefinition::OfProgramCounter => (s, InstructionArgument::ProgramCounter),
        InstructionArgumentDefinition::OfOverflow => (s, InstructionArgument::Overflow),
        InstructionArgumentDefinition::AtAddressFromNextWord => (
            s,
            InstructionArgument::Address(operand.unwrap()),
        ),
        InstructionArgumentDefinition::NextWordLiteral => (
            s,
            InstructionArgument::Literal(operand.unwrap()),
        ),
        InstructionArgumentDefinition::Literal { value } => (s, InstructionArgument::Literal(value)),
    }
}

/// An operand resolved in state `s`: its site and the value read from it once
/// its stack effect has been applied.
pub open spec fn resolve_operand(
    s: MachineState,
    kind: InstructionArgumentDefinition,
    operand: Option<Word>,
) -> (MachineState, ResolvedValue) {
    let (s1, site) = interpret(s, kind, operand);
    (
        s1,
        ResolvedValue { argument_definition: kind, argument: site, resolved_value: read_site(s1, site) },
    )
}

/// The extra words of an instruction, handed to `a` and `b` in fetch order.
pub open spec fn operand_words(ins: Instruction) -> (Option<Word>, Option<Word>) {
    let (_, word, first, second) = ins.parts();
    if word.operands().0.extra_words() > 0 {
        (first, second)
    } else {
        (None, first)
    }
}

/// An instruction whose raw words are as many as its operands need.
pub open spec fn well_formed(ins: Instruction) -> bool {
    &&& !ins.parts().1.is_reserved()
    &&& ins.word_count() == ins.parts().1.words()
}

/// Resolves `a`, then `b`, in state `s`.
pub open spec fn resolve_spec(s: MachineState, ins: Instruction) -> (
    MachineState,
    InstructionWithOperands,
) {
    let (raw, word, _, _) = ins.parts();
    let (a, b) = word.operands();
    let (ea, eb) = operand_words(ins);
    let (s1, ra) = resolve_operand(s, a, ea);
    match b {
        Some(b) => {
            let (s2, rb) = resolve_operand(s1, b, eb);
            (
                s2,
                InstructionWithOperands {
                    raw_instruction: raw,
                    instruction: word,
                    a: ra,
                    b: Some(rb),
                },
            )
        },
        None => (
            s1,
            InstructionWithOperands { raw_instruction: raw, instruction: word, a: ra, b: None },
        ),
    }
}

/// What executing a resolved instruction does to state `s`.
pub open spec fn execute_spec(s: MachineState, ins: InstructionWithOperands) -> MachineState {
    let site = ins.a.argument;
    let la = ins.a.resolved_value;
    let rb = ins.b.unwrap().resolved_value;
    match ins.instruction {
        InstructionWord::NonBasic(nbi) => match nbi {
            NonBasicInstruction::Jsr { .. } => {
                let sp = wrap(s.sp - 1);
                MachineState { sp, ram: s.ram.update(sp as int, s.pc), pc: la, ..s }
            },
            NonBasicInstruction::Reserved => s,
        },
        InstructionWord::SetValue { .. } => write_site(s, site, rb),
        InstructionWord::Add { .. } => write_site(
            MachineState { o: add_spec(la, rb).1, ..s },
            site,
            add_spec(la, rb).0,
        ),
        InstructionWord::Sub { .. } => write_site(
            MachineState { o: sub_spec(la, rb).1, ..s },
            site,
            sub_spec(la, rb).0,
        ),
        InstructionWord::Mul { .. } => write_site(
            MachineState { o: mul_spec(la, rb).1, ..s },
            site,
            mul_spec(la, rb).0,
        ),
        InstructionWord::Div { .. } => write_site(
            MachineState { o: div_spec(la, rb).1, ..s },
            site,
            div_spec(la, rb).0,
        ),
        InstructionWord::Mod { .. } => write_site(s, site, mod_spec(la, rb)),
        InstructionWord::Shl { .. } => write_site(
            MachineState { o: shl_spec(la, rb).1, ..s },
            site,
            shl_spec(la, rb).0,
        ),
        InstructionWord::Shr { .. } => write_site(
            MachineState { o: shr_spec(la, rb).1, ..s },
            site,
            shr_spec(la, rb).0,
        ),
        InstructionWord::And { .. } => write_site(s, site, la & rb),
        InstructionWord::Bor { .. } => write_site(s, site, la | rb),
        InstructionWord::Xor { .. } => write_site(s, site, la ^ rb),
        InstructionWord::Ife { .. } => MachineState { skip: s.skip || !(la == rb), ..s },
        InstructionWord::Ifn { .. } => MachineState { skip: s.skip || !(la != rb), ..s },
        InstructionWord::Ifg { .. } => MachineState { skip: s.skip || !(la > rb), ..s },
        InstructionWord::Ifb { .. } => MachineState { skip: s.skip || !(la & rb != 0), ..s },
    }
}

/// The instruction at `pc` with the words that follow it.
pub open spec fn fetch(program: Seq<Word>, pc: int) -> Instruction {
    let raw = program[pc];
    let word = InstructionWord::decoded(raw);
    if word.words() == 1 {
        Instruction::OneWord { instruction: word, raw_instruction: raw }
    } else if word.words() == 2 {
        Instruction::TwoWord { instruction: word, raw_instruction: raw, raw_1st: program[pc + 1] }
    } else {
        Instruction::ThreeWord {
            instruction: word,
            raw_instruction: raw,
            raw_1st: program[pc + 1],
            raw_2nd: program[pc + 2],
        }
    }
}

/// One step of the machine on `program` from state `s`: the new state, and
/// whether to go on.
///
/// A step fetches the instruction at PC and moves PC past it, resolves its
/// operands, and then either executes it or, when the skip latch is set, clears
/// the latch instead. It goes on unless PC came back to where it was (a crash
/// loop) or left the program. A reserved instruction sets the fault flag and
/// changes nothing else. An instruction that runs past the end of the program,
/// or a PC already past it, changes nothing. Both stop the machine.
pub open spec fn step_spec(program: Seq<Word>, s: MachineState) -> (MachineState, bool) {
    let pc = s.pc as int;
    if pc >= program.len() {
        (s, false)
    } else {
        let word = InstructionWord::decoded(program[pc]);
        if word.is_reserved() {
            (MachineState { fault: true, ..s }, false)
        } else if pc + word.words() > program.len() {
            (s, false)
        } else {
            let s1 = MachineState { pc: (pc + word.words()) as Word, ..s };
            let (s2, ins) = resolve_spec(s1, fetch(program, pc));
            let s3 = if s.skip {
                MachineState { skip: false, ..s2 }
            } else {
                execute_spec(s2, ins)
            };
            (s3, s3.pc != s.pc && s3.pc < program.len())
        }
    }
}

/// The state after running from `s` until a step says to stop, or until `fuel`
/// steps have been taken.
pub open spec fn run_spec(program: Seq<Word>, s: MachineState, fuel: nat) -> MachineState
    decreases fuel,
{
    if fuel == 0 {
        s
    } else {
        let (s1, go_on) = step_spec(program, s);
        if go_on {
            run_spec(program, s1, (fuel - 1) as nat)
        } else {
            s1
        }
    }
}

/// Resolving operands moves at most the stack pointer.
pub proof fn lemma_resolve_frame(s: MachineState, ins: Instruction)
    ensures
        resolve_spec(s, ins).0 == (MachineState { sp: resolve_spec(s, ins).0.sp, ..s }),
{
}

/// A basic instruction whose destination is a literal leaves the registers and
/// RAM as they were: the store fails silently.
pub proof fn lemma_literal_write_silent(program: Seq<Word>, s: MachineState)
    requires
        s.wf(),
        s.pc < program.len(),
        InstructionWord::decoded(program[s.pc as int]).opcode() != 0,
        InstructionWord::decoded(program[s.pc as int]).operands().0 is Literal
            || InstructionWord::decoded(program[s.pc as int]).operands().0 is NextWordLiteral,
    ensures
        step_spec(program, s).0.registers == s.registers,
        step_spec(program, s).0.ram == s.ram,
{
    let pc = s.pc as int;
    let word = InstructionWord::decoded(program[pc]);
    if pc + word.words() <= program.len() {
        let s1 = MachineState { pc: (pc + word.words()) as Word, ..s };
        lemma_resolve_frame(s1, fetch(program, pc));
    }
}

/// ADD, SUB, MUL and SHL keep the full-width result modulo 2^16, and O holds
/// the carry, the borrow, or the next 16 bits of the full-width result.
pub proof fn lemma_wrap_around(la: Word, rb: Word)
    ensures
        add_spec(la, rb).0 == (la + rb) % 0x10000,
        add_spec(la, rb).1 == (la + rb) / 0x10000,
        sub_spec(la, rb).0 == (la - rb) % 0x10000,
        sub_spec(la, rb).1 == (if la < rb { 0xffffint } else { 0 }),
        mul_spec(la, rb).0 == (la * rb) % 0x10000,
        mul_spec(la, rb).1 == (la * rb) / 0x10000,
        shl_spec(la, rb).0 == (la * vstd::arithmetic::power2::pow2(rb as nat)) % 0x10000,
        shl_spec(la, rb).1 == ((la * vstd::arithmetic::power2::pow2(rb as nat)) / 0x10000)
            % 0x10000,
{
    assert(la * rb <= 0xffff * 0xffff) by (nonlinear_arith)
        requires
            la <= 0xffff,
            rb <= 0xffff,
    ;
}

/// Reading a site just written gives the value written, unless the site is a
/// literal.
pub proof fn lemma_read_after_write(s: MachineState, site: InstructionArgument, v: Word)
    requires
        s.wf(),
        !(site is Literal),
    ensures
        read_site(write_site(s, site, v), site) == v,
{
}

/// DIV and MOD by zero store 0; DIV also clears O, while MOD leaves O alone.
pub proof fn lemma_division_by_zero(s: MachineState, ins: InstructionWithOperands)
    requires
        s.wf(),
        ins.is_consistent(),
        ins.instruction is Div || ins.instruction is Mod,
        ins.b.unwrap().resolved_value == 0,
        !(ins.a.argument is Literal),
    ensures
        read_site(execute_spec(s, ins), ins.a.argument) == 0,
        ins.instruction is Div ==> execute_spec(s, ins).o == 0,
        ins.instruction is Mod && !(ins.a.argument is Overflow) ==> execute_spec(s, ins).o == s.o,
{
    if ins.instruction is Div {
        lemma_read_after_write(MachineState { o: 0, ..s }, ins.a.argument, 0);
    } else {
        lemma_read_after_write(s, ins.a.argument, 0);
    }
}

/// A conditional whose test fails sets the skip latch and changes nothing else.
pub proof fn lemma_failed_test_sets_skip(s: MachineState, ins: InstructionWithOperands)
    requires
        ins.is_consistent(),
        ({
            let la = ins.a.resolved_value;
            let rb = ins.b.unwrap().resolved_value;
            match ins.instruction {
                InstructionWord::Ife { .. } => la != rb,
                InstructionWord::Ifn { .. } => la == rb,
                InstructionWord::Ifg { .. } => la <= rb,
                InstructionWord::Ifb { .. } => la & rb == 0,
                _ => false,
            }
        }),
    ensures
        execute_spec(s, ins) == (MachineState { skip: true, ..s }),
{
}

/// With the skip latch set, a step consumes exactly the words of the next
/// instruction and clears the latch without executing it: registers, RAM and O
/// stay as they were (only POP or PUSH operands move SP), and the step after
/// executes normally.
pub proof fn lemma_skip_consumes_one_instruction(program: Seq<Word>, s: MachineState)
    requires
        s.wf(),
        s.skip,
        program.len() < 0x10000,
        s.pc < program.len(),
        !InstructionWord::decoded(program[s.pc as int]).is_reserved(),
        s.pc + InstructionWord::decoded(program[s.pc as int]).words() <= program.len(),
    ensures
        ({
            let (s1, go_on) = step_spec(program, s);
            &&& s1.pc == s.pc + InstructionWord::decoded(program[s.pc as int]).words()
            &&& !s1.skip
            &&& s1.registers == s.registers
            &&& s1.ram == s.ram
            &&& s1.o == s.o
            &&& go_on == (s1.pc < program.len())
        }),
{
    let pc = s.pc as int;
    let word = InstructionWord::decoded(program[pc]);
    let s1 = MachineState { pc: (pc + word.words()) as Word, ..s };
    lemma_resolve_frame(s1, fetch(program, pc));
}

/// `SET PC, X` at address X, with X as a next-word literal (or as an inline
/// literal when it is below 0x20), stops the run with PC at X.
pub proof fn lemma_crash_loop(program: Seq<Word>, s: MachineState, fuel: nat)
    requires
        s.wf(),
        !s.skip,
        program.len() < 0x10000,
        fuel >= 1,
        s.pc + 1 < program.len() && program[s.pc as int] == 0x7dc1 && program[s.pc + 1] == s.pc
            || s.pc < program.len() && s.pc < 0x20 && program[s.pc as int] == 0x01c1 + (0x20
            + s.pc) * 1024,
    ensures
        step_spec(program, s).0.pc == s.pc,
        !step_spec(program, s).1,
        run_spec(program, s, fuel).pc == s.pc,
{
    let pc = s.pc as int;
    let w = program[pc];
    assert(opcode_field(w) == 1 && a_field(w) == 0x1c);
    let s1 = MachineState { pc: (pc + InstructionWord::decoded(w).words()) as Word, ..s };
    lemma_resolve_frame(s1, fetch(program, pc));
    assert(run_spec(program, s, fuel) == step_spec(program, s).0);
}

} // verus!
