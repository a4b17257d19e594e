use vstd::prelude::*;
use vstd::string::StringExecFns;

use crate::alu::{
    add_with_carry,
    div_wide,
    mod_or_zero,
    mul_wide,
    shl_wide,
    shr_wide,
    sub_with_borrow,
    wrap,
};
use crate::hex::{append_hex, hex_text};
use crate::hexdump::{dump_text, hexdump_words};
use crate::instruction::{Instruction, InstructionWord, NonBasicInstruction};
use crate::instruction_argument::{InstructionArgument, InstructionArgumentDefinition};
use crate::instruction_with_operands::{InstructionWithOperands, ResolvedValue};
use crate::register::Register;
use crate::semantics::{
    execute_spec,
    fetch,
    interpret,
    offset_address,
    read_site,
    resolve_operand,
    resolve_spec,
    run_spec,
    step_spec,
    write_site,
    MachineState,
    NUM_RAM_WORDS,
    NUM_REGISTERS,
    STACK_POINTER_INIT,
};
use crate::Word;

verus! {

/// `w + 1` modulo 2^16.
fn increment(w: Word) -> (r: Word)
    ensures
        r == wrap(w + 1),
{
    if w == 0xffff {
        0
    } else {
        w + 1
    }
}

/// `w - 1` modulo 2^16.
fn decrement(w: Word) -> (r: Word)
    ensures
        r == wrap(w - 1),
{
    if w == 0 {
        assert(wrap(w - 1) == 0xffff) by {
            assert((-1int) % 0x10000 == 0xffff);
        }
        0xffff
    } else {
        w - 1
    }
}

/// A DCPU-16 emulator running a borrowed program image.
///
/// Instructions are fetched from the program image, which stays as it was
/// given; operands that address memory read and write the separate RAM.
pub struct DCPU16<'p> {
    /// RAM.
    ram: Box<[Word; NUM_RAM_WORDS]>,
    /// Registers.
    registers: [Word; NUM_REGISTERS],
    /// Program counter.
    program_counter: Word,
    /// Stack pointer.
    stack_pointer: Word,
    /// Overflow.
    overflow: Word,
    /// Program counter at the start of the current step, to tell a crash loop
    /// (a jump to the same instruction).
    previous_program_counter: Word,
    /// The program.
    program: &'p [Word],
    /// Whether the next instruction is to be skipped.
    skip_next_instruction: bool,
    /// Whether a reserved instruction was met.
    decode_fault: bool,
}

impl<'p> DCPU16<'p> {
    /// The machine state the emulator holds.
    pub closed spec fn state(&self) -> MachineState {
        MachineState {
            registers: self.registers@,
            ram: self.ram@,
            pc: self.program_counter,
            sp: self.stack_pointer,
            o: self.overflow,
            skip: self.skip_next_instruction,
            fault: self.decode_fault,
        }
    }

    /// The program image.
    pub closed spec fn image(&self) -> Seq<Word> {
        self.program@
    }

    /// The state is well formed and the program fits the address space.
    pub closed spec fn wf(&self) -> bool {
        &&& self.state().wf()
        &&& self.program@.len() < 0x10000
    }

    /// What well-formedness gives a caller.
    pub proof fn lemma_wf(&self)
        requires
            self.wf(),
        ensures
            self.state().wf(),
            self.image().len() < 0x10000,
    {
    }

    /// Creates an emulator for `program`, with all registers and RAM zero, PC
    /// zero and SP at the top of RAM.
    pub fn new(program: &'p [Word]) -> (r: DCPU16<'p>)
        requires
            program@.len() < 0x10000,
        ensures
            r.wf(),
            r.state() == MachineState::initial(),
            r.image() == program@,
    {
        let cpu = DCPU16 {
            ram: Box::new([0; NUM_RAM_WORDS]),
            registers: [0; NUM_REGISTERS],
            program_counter: 0,
            stack_pointer: STACK_POINTER_INIT,
            overflow: 0,
            previous_program_counter: 0,
            program,
            skip_next_instruction: false,
            decode_fault: false,
        };
        assert(cpu.state().registers =~= MachineState::initial().registers);
        assert(cpu.state().ram =~= MachineState::initial().ram);
        cpu
    }

    /// Gets the value of the specified register.
    pub fn register(&self, register: Register) -> (r: Word)
        requires
            self.wf(),
        ensures
            r == self.state().registers[register.index()],
    {
        self.registers[register.ordinal()]
    }

    /// Gets a reference to the RAM.
    pub fn ram(&self) -> (r: &[Word; NUM_RAM_WORDS])
        ensures
            r@ == self.state().ram,
    {
        &self.ram
    }

    /// Gets a mutable reference to the RAM.
    pub fn ram_mut(&mut self) -> (r: &mut [Word; NUM_RAM_WORDS])
        requires
            old(self).wf(),
        ensures
            r@ == old(self).state().ram,
            final(self).state() == (MachineState { ram: final(r)@, ..old(self).state() }),
            final(self).image() == old(self).image(),
            final(self).wf(),
    {
        &mut self.ram
    }

    /// The program counter.
    pub fn program_counter(&self) -> (r: Word)
        ensures
            r == self.state().pc,
    {
        self.program_counter
    }

    /// The stack pointer.
    pub fn stack_pointer(&self) -> (r: Word)
        ensures
            r == self.state().sp,
    {
        self.stack_pointer
    }

    /// The overflow register.
    pub fn overflow(&self) -> (r: Word)
        ensures
            r == self.state().o,
    {
        self.overflow
    }

    /// Whether the emulator stopped on a reserved instruction.
    pub fn decode_fault(&self) -> (r: bool)
        ensures
            r == self.state().fault,
    {
        self.decode_fault
    }

    /// Whether the next instruction will be skipped.
    pub fn skips_next_instruction(&self) -> (r: bool)
        ensures
            r == self.state().skip,
    {
        self.skip_next_instruction
    }

    /// Executes the program until a step says to stop: a crash loop, the end of
    /// the program or a reserved instruction. Gives up after `u64::MAX` steps.
    pub fn run(&mut self)
        requires
            old(self).wf(),
        ensures
            final(self).wf(),
            final(self).image() == old(self).image(),
            final(self).state() == run_spec(old(self).image(), old(self).state(), u64::MAX as nat),
    {
        let mut count: u64 = 0;
        while count < u64::MAX
            invariant
                self.wf(),
                self.image() == old(self).image(),
                run_spec(self.image(), self.state(), (u64::MAX - count) as nat) == run_spec(
                    old(self).image(),
                    old(self).state(),
                    u64::MAX as nat,
                ),
            decreases u64::MAX - count,
        {
            if !self.step() {
                return;
            }
            count = count + 1;
        }
    }

    /// Executes a single instruction of the program; returns whether to go on.
    pub fn step(&mut self) -> (r: bool)
        requires
            old(self).wf(),
        ensures
            final(self).wf(),
            final(self).image() == old(self).image(),
            (final(self).state(), r) == step_spec(old(self).image(), old(self).state()),
    {
        let pc = self.program_counter;
        if pc as usize >= self.program.len() {
            return false;
        }
        let word = InstructionWord::decode(self.program[pc as usize]);
        if word.is_reserved_instruction() {
            self.decode_fault = true;
            return false;
        }
        if pc as usize + word.length_in_words() > self.program.len() {
            return false;
        }
        let instruction = self.read_instruction();
        self.previous_program_counter = pc;
        if self.skip_next_instruction {
            self.execute_skipped_instruction(instruction);
        } else {
            if !self.execute_instruction(instruction) {
                return false;
            }
        }
        (self.program_counter as usize) < self.program.len()
    }

    /// "Executes" a skipped instruction: only clears the latch.
    fn execute_skipped_instruction(&mut self, instruction: InstructionWithOperands)
        ensures
            final(self).state() == (MachineState { skip: false, ..old(self).state() }),
            final(self).image() == old(self).image(),
    {
        self.skip_next_instruction = false;
    }

    /// Executes a resolved instruction; returns false on a crash loop, that is
    /// when PC is back where the step began.
    fn execute_instruction(&mut self, instruction: InstructionWithOperands) -> (r: bool)
        requires
            old(self).wf(),
            instruction.is_consistent(),
        ensures
            final(self).wf(),
            final(self).image() == old(self).image(),
            final(self).state() == execute_spec(old(self).state(), instruction),
            r == (final(self).state().pc != old(self).previous_program_counter),
    {
        let (a, lhs) = instruction.a.unpack();
        let rhs: Word = match instruction.b {
            Some(b) => b.resolved_value,
            None => 0,
        };
        match instruction.instruction {
            InstructionWord::NonBasic(nbi) => match nbi {
                NonBasicInstruction::Reserved => {},
                NonBasicInstruction::Jsr { .. } => {
                    self.stack_pointer = decrement(self.stack_pointer);
                    self.ram[self.stack_pointer as usize] = self.program_counter;
                    self.program_counter = lhs;
                },
            },
            InstructionWord::SetValue { .. } => {
                self.store_value(a, rhs);
            },
            InstructionWord::Add { .. } => {
                let (result, overflow) = add_with_carry(lhs, rhs);
                self.overflow = overflow;
                self.store_value(a, result);
            },
            InstructionWord::Sub { .. } => {
                let (result, overflow) = sub_with_borrow(lhs, rhs);
                self.overflow = overflow;
                self.store_value(a, result);
            },
            InstructionWord::Mul { .. } => {
                let (result, overflow) = mul_wide(lhs, rhs);
                self.overflow = overflow;
                self.store_value(a, result);
            },
            InstructionWord::Div { .. } => {
                let (result, overflow) = div_wide(lhs, rhs);
                self.overflow = overflow;
                self.store_value(a, result);
            },
            InstructionWord::Mod { .. } => {
                self.store_value(a, mod_or_zero(lhs, rhs));
            },
            InstructionWord::Shl { .. } => {
                let (result, overflow) = shl_wide(lhs, rhs);
                self.overflow = overflow;
                self.store_value(a, result);
            },
            InstructionWord::Shr { .. } => {
                let (result, overflow) = shr_wide(lhs, rhs);
                self.overflow = overflow;
                self.store_value(a, result);
            },
            InstructionWord::And { .. } => {
                self.store_value(a, lhs & rhs);
            },
            InstructionWord::Bor { .. } => {
                self.store_value(a, lhs | rhs);
            },
            InstructionWord::Xor { .. } => {
                self.store_value(a, lhs ^ rhs);
            },
            InstructionWord::Ife { .. } => {
                if !(lhs == rhs) {
                    self.skip_next_instruction = true;
                }
            },
            InstructionWord::Ifn { .. } => {
                if !(lhs != rhs) {
                    self.skip_next_instruction = true;
                }
            },
            InstructionWord::Ifg { .. } => {
                if !(lhs > rhs) {
                    self.skip_next_instruction = true;
                }
            },
            InstructionWord::Ifb { .. } => {
                if !(lhs & rhs != 0) {
                    self.skip_next_instruction = true;
                }
            },
        }
        // An operation may set the program counter, e.g. `SET PC, POP`; coming
        // back to where the step began is taken as a crash loop.
        self.previous_program_counter != self.program_counter
    }

    /// Reads the instruction at PC and its extra words, advancing PC past
    /// them, and resolves its operands.
    fn read_instruction(&mut self) -> (r: InstructionWithOperands)
        requires
            old(self).wf(),
            old(self).state().pc < old(self).image().len(),
            !InstructionWord::decoded(old(self).image()[old(self).state().pc as int]).is_reserved(),
            old(self).state().pc + InstructionWord::decoded(
                old(self).image()[old(self).state().pc as int],
            ).words() <= old(self).image().len(),
        ensures
            final(self).wf(),
            final(self).image() == old(self).image(),
            (final(self).state(), r) == resolve_spec(
                MachineState {
                    pc: (old(self).state().pc + InstructionWord::decoded(
                        old(self).image()[old(self).state().pc as int],
                    ).words()) as Word,
                    ..old(self).state()
                },
                fetch(old(self).image(), old(self).state().pc as int),
            ),
    {
        let raw_instruction = self.read_word_and_advance_pc();
        let instruction_word = InstructionWord::decode(raw_instruction);
        let length = instruction_word.length_in_words();
        let instruction = if length == 1 {
            Instruction::OneWord { raw_instruction, instruction: instruction_word }
        } else if length == 2 {
            let raw_1st = self.read_word_and_advance_pc();
            Instruction::TwoWord { raw_instruction, instruction: instruction_word, raw_1st }
        } else {
            let raw_1st = self.read_word_and_advance_pc();
            let raw_2nd = self.read_word_and_advance_pc();
            Instruction::ThreeWord { raw_instruction, instruction: instruction_word, raw_1st, raw_2nd }
        };
        InstructionWithOperands::resolve(self, instruction)
    }

    /// Reads the word at PC and advances PC.
    fn read_word_and_advance_pc(&mut self) -> (r: Word)
        requires
            old(self).wf(),
            old(self).state().pc < old(self).image().len(),
        ensures
            final(self).wf(),
            final(self).image() == old(self).image(),
            r == old(self).image()[old(self).state().pc as int],
            final(self).state() == (MachineState {
                pc: (old(self).state().pc + 1) as Word,
                ..old(self).state()
            }),
    {
        let value = self.program[self.program_counter as usize];
        self.program_counter = self.program_counter + 1;
        value
    }

    /// Interprets an operand and reads the value at its site.
    pub(crate) fn resolve_argument(
        &mut self,
        value: InstructionArgumentDefinition,
        operand: Option<Word>,
    ) -> (r: (InstructionArgument, Word))
        requires
            old(self).wf(),
            value.extra_words() > 0 ==> operand is Some,
        ensures
            final(self).wf(),
            final(self).image() == old(self).image(),
            (
                final(self).state(),
                ResolvedValue { argument_definition: value, argument: r.0, resolved_value: r.1 },
            ) == resolve_operand(old(self).state(), value, operand),
    {
        let argument = self.interpret_argument(value, operand);
        (argument, self.read_value(argument))
    }

    /// The site an operand denotes; POP and PUSH move the stack pointer.
    fn interpret_argument(
        &mut self,
        value: InstructionArgumentDefinition,
        operand: Option<Word>,
    ) -> (r: InstructionArgument)
        requires
            old(self).wf(),
            value.extra_words() > 0 ==> operand is Some,
        ensures
            final(self).wf(),
            final(self).image() == old(self).image(),
            (final(self).state(), r) == interpret(old(self).state(), value, operand),
    {
        match value {
            InstructionArgumentDefinition::Register { register } => InstructionArgument::Register(
                register,
            ),
            InstructionArgumentDefinition::AtAddressFromRegister { register } => {
                InstructionArgument::Address(self.registers[register.ordinal()])
            },
            InstructionArgumentDefinition::AtAddressFromNextWordPlusRegister { register } => {
                InstructionArgument::AddressOffset { address: operand.unwrap(), register }
            },
            InstructionArgumentDefinition::Pop => {
                let address = self.stack_pointer;
                self.stack_pointer = increment(self.stack_pointer);
                InstructionArgument::Address(address)
            },
            InstructionArgumentDefinition::Peek => InstructionArgument::Address(self.stack_pointer),
            InstructionArgumentDefinition::Push => {
                self.stack_pointer = decrement(self.stack_pointer);
                InstructionArgument::Address(self.stack_pointer)
            },
            InstructionArgumentDefinition::OfStackPointer => InstructionArgument::StackPointer,
            InstructionArgumentDefinition::OfProgramCounter => InstructionArgument::ProgramCounter,
            InstructionArgumentDefinition::OfOverflow => InstructionArgument::Overflow,
            InstructionArgumentDefinition::AtAddressFromNextWord => {
                InstructionArgument::Address(operand.unwrap())
            },
            InstructionArgumentDefinition::NextWordLiteral => {
                InstructionArgument::Literal(operand.unwrap())
            },
            InstructionArgumentDefinition::Literal { value } => InstructionArgument::Literal(value),
        }
    }

    /// The RAM index of `address + register`, modulo 2^16.
    fn offset_index(&self, address: Word, register: Register) -> (r: usize)
        requires
            self.wf(),
        ensures
            r == offset_address(address, self.state().registers[register.index()]),
            r < NUM_RAM_WORDS,
    {
        let register_value = self.registers[register.ordinal()];
        ((address as u32 + register_value as u32) % 0x10000) as usize
    }

    /// Reads the value at a site.
    fn read_value(&self, address: InstructionArgument) -> (r: Word)
        requires
            self.wf(),
        ensures
            r == read_site(self.state(), address),
    {
        match address {
            InstructionArgument::Literal(value) => value,
            InstructionArgument::Register(register) => self.registers[register.ordinal()],
            InstructionArgument::Address(address) => self.ram[address as usize],
            InstructionArgument::AddressOffset { address, register } => {
                self.ram[self.offset_index(address, register)]
            },
            InstructionArgument::ProgramCounter => self.program_counter,
            InstructionArgument::StackPointer => self.stack_pointer,
            InstructionArgument::Overflow => self.overflow,
        }
    }

    /// Stores a value at a site. A store to a literal fails silently, as the
    /// instruction set defines.
    fn store_value(&mut self, address: InstructionArgument, value: Word)
        requires
            old(self).wf(),
        ensures
            final(self).wf(),
            final(self).image() == old(self).image(),
            final(self).state() == write_site(old(self).state(), address, value),
            final(self).previous_program_counter == old(self).previous_program_counter,
    {
        match address {
            InstructionArgument::Literal(_) => {},
            InstructionArgument::Register(register) => {
                self.registers[register.ordinal()] = value;
            },
            InstructionArgument::Address(address) => {
                self.ram[address as usize] = value;
            },
            InstructionArgument::AddressOffset { address, register } => {
                let index = self.offset_index(address, register);
                self.ram[index] = value;
            },
            InstructionArgument::ProgramCounter => self.program_counter = value,
            InstructionArgument::StackPointer => self.stack_pointer = value,
            InstructionArgument::Overflow => self.overflow = value,
        }
    }

    /// Dumps the RAM in rows of `words_per_row` words.
    pub fn hexdump_ram(&self, words_per_row: usize) -> (r: String)
        requires
            self.wf(),
            words_per_row > 0,
        ensures
            r@ == dump_text(self.state().ram, words_per_row as nat, 0),
    {
        hexdump_words(self.ram.as_slice(), words_per_row)
    }

    /// Dumps the program image in rows of `words_per_row` words.
    pub fn hexdump_program(&self, words_per_row: usize) -> (r: String)
        requires
            self.wf(),
            words_per_row > 0,
        ensures
            r@ == dump_text(self.image(), words_per_row as nat, 0),
    {
        hexdump_words(self.program, words_per_row)
    }

    /// The registers, PC, SP and O, as `Registers: A=0000 ... O=0000`.
    pub fn dump_state(&self) -> (r: String)
        requires
            self.wf(),
        ensures
            r@ == state_text(self.state()),
    {
        let mut s = String::new();
        s.append("Registers: A=");
        append_hex(&mut s, self.registers[0], 4, true);
        s.append(" B=");
        append_hex(&mut s, self.registers[1], 4, true);
        s.append(" C=");
        append_hex(&mut s, self.registers[2], 4, true);
        s.append(" X=");
        append_hex(&mut s, self.registers[3], 4, true);
        s.append(" Y=");
        append_hex(&mut s, self.registers[4], 4, true);
        s.append(" Z=");
        append_hex(&mut s, self.registers[5], 4, true);
        s.append(" I=");
        append_hex(&mut s, self.registers[6], 4, true);
        s.append(" J=");
        append_hex(&mut s, self.registers[7], 4, true);
        s.append(" PC=");
        append_hex(&mut s, self.program_counter, 4, true);
        s.append(" SP=");
        append_hex(&mut s, self.stack_pointer, 4, true);
        s.append(" O=");
        append_hex(&mut s, self.overflow, 4, true);
        assert(s@ =~= state_text(self.state()));
        s
    }
}

/// The text `dump_state` gives for a state.
pub open spec fn state_text(s: MachineState) -> Seq<char> {
    "Registers: A="@ + hex_text(s.registers[0], 4, true) + " B="@ + hex_text(s.registers[1], 4, true)
        + " C="@ + hex_text(s.registers[2], 4, true) + " X="@ + hex_text(s.registers[3], 4, true)
        + " Y="@ + hex_text(s.registers[4], 4, true) + " Z="@ + hex_text(s.registers[5], 4, true)
        + " I="@ + hex_text(s.registers[6], 4, true) + " J="@ + hex_text(s.registers[7], 4, true)
        + " PC="@ + hex_text(s.pc, 4, true) + " SP="@ + hex_text(s.sp, 4, true) + " O="@ + hex_text(
        s.o,
        4,
        true,
    )
}

} // verus!
