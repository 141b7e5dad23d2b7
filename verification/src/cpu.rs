//! The CPU core: a register file, two flags, an instruction pointer into
//! the ROM and a stack pointer into the private RAM, driven one
//! instruction at a time by [`CPU::update`].
//!
//! What an instruction does is defined once, on the mathematical state
//! [`CpuState`], by [`CpuState::step`]; the executable core is proved to
//! follow it.

use vstd::prelude::*;
use crate::memory::{Memory, CODE_END, CODE_START, RAM_WORDS, ROM_WORDS};
use crate::opcodes::{
    operand_count, COMP_REGS, DEC_REG_V, DIV_REG_V, HALT_LOOP, INC_REG_V, JMP_TO_AD, JMP_TO_SR,
    JUMP_IFEQ, JUMP_INEQ, LOAD_AREG, LOAD_GREG, LOAD_XREG, LOAD_YREG, MUL_REG_V, REG_A, REG_X,
    REG_Y, RET_TO_OR, STOR_AREG, STOR_GREG, STOR_XREG, STOR_YREG,
};

verus! {

/// The instruction pointer that follows `ptr`: one further, except that the
/// end of the program area is followed by its start, and the last address
/// by the first.
pub open spec fn next_instr_ptr(ptr: u16) -> u16 {
    if ptr == CODE_END {
        CODE_START
    } else if ptr == 0xFFFF {
        0
    } else {
        (ptr + 1) as u16
    }
}

/// The stack pointer that follows `ptr`, modulo 256.
pub open spec fn next_stack_ptr(ptr: u8) -> u8 {
    if ptr == 0xFF {
        0
    } else {
        (ptr + 1) as u8
    }
}

/// The stack pointer that precedes `ptr`, modulo 256.
pub open spec fn prev_stack_ptr(ptr: u8) -> u8 {
    if ptr == 0 {
        0xFF
    } else {
        (ptr - 1) as u8
    }
}

/// `value` reduced to a word.
pub open spec fn wrap_word(value: int) -> u16 {
    (value % 0x1_0000) as u16
}

/// What one instruction did beyond the CPU's own state.
#[derive(Clone, Copy, Debug, PartialEq, Eq)]
pub enum StepEffect {
    /// Nothing left the CPU.
    Internal,
    /// The ROM word at `address` was overwritten and is to be written back
    /// to the shared image.
    Stored { address: u16 },
    /// A division by zero was asked for; the register was left as it was.
    DivisionByZero,
}

/// The state of the machine as a mathematical value.
pub struct CpuState {
    pub instr_ptr: u16,
    pub stack_ptr: u8,
    pub a_reg: u16,
    pub x_reg: u16,
    pub y_reg: u16,
    pub g_reg: u16,
    pub halt_flag: bool,
    pub eq_flag: bool,
    pub rom: Seq<u16>,
    pub ram: Seq<u16>,
}

impl CpuState {
    /// The state has a full ROM and a full RAM.
    pub open spec fn wf(self) -> bool {
        &&& self.rom.len() == ROM_WORDS
        &&& self.ram.len() == RAM_WORDS
    }

    /// The state at reset: registers and flags clear, the stack empty, the
    /// instruction pointer at the start of the program area.
    pub open spec fn reset(rom: Seq<u16>, ram: Seq<u16>) -> CpuState {
        CpuState {
            instr_ptr: CODE_START,
            stack_ptr: 0,
            a_reg: 0,
            x_reg: 0,
            y_reg: 0,
            g_reg: 0,
            halt_flag: false,
            eq_flag: false,
            rom,
            ram,
        }
    }

    /// The word the instruction pointer points at.
    pub open spec fn current_word(self) -> u16 {
        self.rom[self.instr_ptr as int]
    }

    /// The state after the instruction pointer has moved on by one word.
    pub open spec fn advance(self) -> CpuState {
        CpuState { instr_ptr: next_instr_ptr(self.instr_ptr), ..self }
    }

    /// The state after the instruction pointer has moved on by `count`
    /// words.
    pub open spec fn advanced(self, count: nat) -> CpuState
        decreases count,
    {
        if count == 0 {
            self
        } else {
            self.advanced((count - 1) as nat).advance()
        }
    }

    /// The state after a jump to `target`.
    pub open spec fn jump(self, target: u16) -> CpuState {
        CpuState { instr_ptr: target, ..self }
    }

    /// An operand word of a comparison: the register it names, or itself.
    pub open spec fn resolve(self, operand: u16) -> u16 {
        if operand == REG_A {
            self.a_reg
        } else if operand == REG_X {
            self.x_reg
        } else if operand == REG_Y {
            self.y_reg
        } else {
            operand
        }
    }

    /// Whether `reg_id` names one of the registers that arithmetic works on.
    pub open spec fn names_register(reg_id: u16) -> bool {
        reg_id == REG_A || reg_id == REG_X || reg_id == REG_Y
    }

    /// The state with the register named by `reg_id` set to `value`; any
    /// other `reg_id` leaves the register file as it is.
    pub open spec fn with_register(self, reg_id: u16, value: u16) -> CpuState {
        if reg_id == REG_A {
            CpuState { a_reg: value, ..self }
        } else if reg_id == REG_X {
            CpuState { x_reg: value, ..self }
        } else if reg_id == REG_Y {
            CpuState { y_reg: value, ..self }
        } else {
            self
        }
    }

    /// The state with the ROM word at `address` set to `value`.
    pub open spec fn store(self, address: u16, value: u16) -> CpuState {
        CpuState { rom: self.rom.update(address as int, value), ..self }
    }

    /// The state with `value` pushed onto the stack.
    pub open spec fn pushed(self, value: u16) -> CpuState {
        CpuState {
            ram: self.ram.update(self.stack_ptr as int, value),
            stack_ptr: next_stack_ptr(self.stack_ptr),
            ..self
        }
    }

    /// The state after a subroutine call to `target`: the current
    /// instruction pointer goes onto the stack.
    pub open spec fn call(self, target: u16) -> CpuState {
        self.pushed(self.instr_ptr).jump(target)
    }

    /// The state with all of `values` pushed onto the stack, in order.
    pub open spec fn pushed_all(self, values: Seq<u16>) -> CpuState
        decreases values.len(),
    {
        if values.len() == 0 {
            self
        } else {
            self.pushed_all(values.drop_last()).pushed(values.last())
        }
    }

    /// The state after `count` returns in a row.
    pub open spec fn returned(self, count: nat) -> CpuState
        decreases count,
    {
        if count == 0 {
            self
        } else {
            self.returned((count - 1) as nat).ret()
        }
    }

    /// The state after a return: the instruction pointer comes off the
    /// stack and moves on by one word.
    pub open spec fn ret(self) -> CpuState {
        let top = prev_stack_ptr(self.stack_ptr);
        CpuState { stack_ptr: top, instr_ptr: next_instr_ptr(self.ram[top as int]), ..self }
    }

    /// The result of an arithmetic opcode on a register that holds
    /// `current`. Sums, differences and products wrap; a division by zero
    /// leaves the register as it is.
    pub open spec fn arith(opcode: u16, current: u16, value: u16) -> u16 {
        if opcode == INC_REG_V {
            wrap_word(current + value)
        } else if opcode == DEC_REG_V {
            wrap_word(current - value)
        } else if opcode == MUL_REG_V {
            wrap_word(current * value)
        } else if value == 0 {
            current
        } else {
            current / value
        }
    }

    /// The state after the instruction at the instruction pointer has run.
    pub open spec fn step(self) -> CpuState {
        let opcode = self.current_word();
        let s = self.advance();
        let first = s.current_word();
        let s1 = s.advance();
        let second = s1.current_word();
        let s2 = s1.advance();
        if opcode == LOAD_AREG {
            CpuState { a_reg: first, ..s1 }
        } else if opcode == LOAD_XREG {
            CpuState { x_reg: first, ..s1 }
        } else if opcode == LOAD_YREG {
            CpuState { y_reg: first, ..s1 }
        } else if opcode == LOAD_GREG {
            CpuState { g_reg: first, ..s1 }
        } else if opcode == STOR_AREG {
            s1.store(first, s.a_reg)
        } else if opcode == STOR_XREG {
            s1.store(first, s.x_reg)
        } else if opcode == STOR_YREG {
            s1.store(first, s.y_reg)
        } else if opcode == STOR_GREG {
            s1.store(first, s.g_reg)
        } else if opcode == JMP_TO_AD {
            s.jump(first)
        } else if opcode == JMP_TO_SR {
            s.call(first)
        } else if opcode == JUMP_IFEQ {
            if s.eq_flag {
                CpuState { eq_flag: false, ..s.jump(first) }
            } else {
                s1
            }
        } else if opcode == JUMP_INEQ {
            if s.eq_flag {
                s1
            } else {
                s.jump(first)
            }
        } else if opcode == RET_TO_OR {
            s.ret()
        } else if opcode == COMP_REGS {
            CpuState { eq_flag: s.resolve(first) == s.resolve(second), ..s2 }
        } else if opcode == INC_REG_V || opcode == DEC_REG_V || opcode == MUL_REG_V || opcode
            == DIV_REG_V {
            s2.with_register(first, Self::arith(opcode, s.resolve(first), second))
        } else if opcode == HALT_LOOP {
            CpuState { halt_flag: true, ..s }
        } else {
            s
        }
    }

    /// The state after one cycle of the machine: a machine that has halted
    /// fetches nothing and stays as it is, any other runs the instruction
    /// at its instruction pointer.
    pub open spec fn cycle(self) -> CpuState {
        if self.halt_flag {
            self
        } else {
            self.step()
        }
    }

    /// What the instruction at the instruction pointer does beyond the
    /// CPU's own state.
    pub open spec fn step_effect(self) -> StepEffect {
        let opcode = self.current_word();
        let s = self.advance();
        let first = s.current_word();
        let second = s.advance().current_word();
        if opcode == STOR_AREG || opcode == STOR_XREG || opcode == STOR_YREG || opcode
            == STOR_GREG {
            StepEffect::Stored { address: first }
        } else if opcode == DIV_REG_V && Self::names_register(first) && second == 0 {
            StepEffect::DivisionByZero
        } else {
            StepEffect::Internal
        }
    }
}

/// The processor with its memory.
#[derive(Debug)]
pub struct CPU {
    pub name: String,
    pub instr_ptr: u16,
    pub stack_ptr: u8,
    pub a_reg: u16,
    pub x_reg: u16,
    pub y_reg: u16,
    pub g_reg: u16,
    pub halt_flag: bool,
    pub eq_flag: bool,
    /// Instructions per second that the driver paces the core to.
    pub clock_speed: usize,
    pub memory: Memory,
}

impl View for CPU {
    type V = CpuState;

    open spec fn view(&self) -> CpuState {
        CpuState {
            instr_ptr: self.instr_ptr,
            stack_ptr: self.stack_ptr,
            a_reg: self.a_reg,
            x_reg: self.x_reg,
            y_reg: self.y_reg,
            g_reg: self.g_reg,
            halt_flag: self.halt_flag,
            eq_flag: self.eq_flag,
            rom: self.memory.rom@,
            ram: self.memory.ram@,
        }
    }
}

impl CPU {
    /// A processor is well formed when its memory is.
    pub open spec fn wf(&self) -> bool {
        self.memory.wf()
    }

    /// Tells at run time whether the processor is well formed.
    pub fn is_wf(&self) -> (ok: bool)
        ensures
            ok == self.wf(),
    {
        self.memory.is_wf()
    }

    /// A processor at reset: registers and flags clear, the stack empty,
    /// the instruction pointer at the start of the program area.
    pub fn init(memory: Memory) -> (cpu: CPU)
        ensures
            cpu@ == CpuState::reset(memory.rom@, memory.ram@),
            cpu.memory == memory,
            cpu.clock_speed == 10_000_000,
            cpu.name@ == "OwO CPU"@,
    {
        CPU {
            name: "OwO CPU".to_owned(),
            instr_ptr: CODE_START,
            stack_ptr: 0x00,
            a_reg: 0,
            x_reg: 0,
            y_reg: 0,
            g_reg: 0,
            halt_flag: false,
            eq_flag: false,
            clock_speed: 10_000_000,
            memory,
        }
    }

    /// Moves the instruction pointer on by one word.
    pub fn increase_instr_ptr(&mut self)
        ensures
            final(self)@ == old(self)@.advance(),
            final(self).name == old(self).name,
            final(self).clock_speed == old(self).clock_speed,
    {
        if self.instr_ptr == CODE_END {
            self.instr_ptr = CODE_START;
        } else {
            self.instr_ptr = self.instr_ptr.wrapping_add(1);
        }
    }

    /// Moves the stack pointer up by one, modulo 256.
    pub fn increase_stack_ptr(&mut self)
        ensures
            final(self)@ == (CpuState {
                stack_ptr: next_stack_ptr(old(self).stack_ptr),
                ..old(self)@
            }),
            final(self).name == old(self).name,
            final(self).clock_speed == old(self).clock_speed,
    {
        if self.stack_ptr == 0xFF {
            self.stack_ptr = 0x00;
        } else {
            self.stack_ptr += 1;
        }
    }

    /// Moves the stack pointer down by one, modulo 256.
    pub fn decrease_stack_ptr(&mut self)
        ensures
            final(self)@ == (CpuState {
                stack_ptr: prev_stack_ptr(old(self).stack_ptr),
                ..old(self)@
            }),
            final(self).name == old(self).name,
            final(self).clock_speed == old(self).clock_speed,
    {
        if self.stack_ptr == 0x00 {
            self.stack_ptr = 0xFF;
        } else {
            self.stack_ptr -= 1;
        }
    }

    /// Fetches the word at the instruction pointer and moves the pointer on.
    pub fn read_word(&mut self) -> (word: u16)
        requires
            old(self).wf(),
        ensures
            word == old(self)@.current_word(),
            final(self)@ == old(self)@.advance(),
            final(self).name == old(self).name,
            final(self).clock_speed == old(self).clock_speed,
    {
        let word: u16 = self.memory.rom[self.instr_ptr as usize];
        self.increase_instr_ptr();
        word
    }

    /// An operand word of a comparison: the register it names, or itself.
    pub fn resolve(&self, operand: u16) -> (value: u16)
        ensures
            value == self@.resolve(operand),
    {
        match operand {
            REG_A => self.a_reg,
            REG_X => self.x_reg,
            REG_Y => self.y_reg,
            _ => operand,
        }
    }

    /// Stores `value` in the ROM at the address that the next word gives.
    fn store_register(&mut self, value: u16) -> (effect: StepEffect)
        requires
            old(self).wf(),
        ensures
            final(self)@ == old(self)@.advance().store(old(self)@.current_word(), value),
            effect == (StepEffect::Stored { address: old(self)@.current_word() }),
            final(self).wf(),
            final(self).name == old(self).name,
            final(self).clock_speed == old(self).clock_speed,
    {
        let address: u16 = self.read_word();
        self.memory.rom.set(address as usize, value);
        StepEffect::Stored { address }
    }

    /// Runs an arithmetic opcode on the register and value that the next
    /// two words give.
    fn arith(&mut self, opcode: u16) -> (effect: StepEffect)
        requires
            old(self).wf(),
            opcode == INC_REG_V || opcode == DEC_REG_V || opcode == MUL_REG_V || opcode
                == DIV_REG_V,
        ensures
            final(self)@ == old(self)@.advance().advance().with_register(
                old(self)@.current_word(),
                CpuState::arith(
                    opcode,
                    old(self)@.resolve(old(self)@.current_word()),
                    old(self)@.advance().current_word(),
                ),
            ),
            effect == if opcode == DIV_REG_V && CpuState::names_register(
                old(self)@.current_word(),
            ) && old(self)@.advance().current_word() == 0 {
                StepEffect::DivisionByZero
            } else {
                StepEffect::Internal
            },
            final(self).wf(),
            final(self).name == old(self).name,
            final(self).clock_speed == old(self).clock_speed,
    {
        let register: u16 = self.read_word();
        let value: u16 = self.read_word();
        if register != REG_A && register != REG_X && register != REG_Y {
            return StepEffect::Internal;
        }
        let current: u16 = self.resolve(register);
        if opcode == DIV_REG_V && value == 0 {
            return StepEffect::DivisionByZero;
        }
        let result: u16 = if opcode == INC_REG_V {
            current.wrapping_add(value)
        } else if opcode == DEC_REG_V {
            current.wrapping_sub(value)
        } else if opcode == MUL_REG_V {
            current.wrapping_mul(value)
        } else {
            current / value
        };
        if register == REG_A {
            self.a_reg = result;
        } else if register == REG_X {
            self.x_reg = result;
        } else {
            self.y_reg = result;
        }
        StepEffect::Internal
    }

    /// Runs the instruction at the instruction pointer.
    ///
    /// Words that are no opcode do nothing but move the pointer on. The
    /// result says what the driver has to do: write a stored word back to
    /// the shared image, or report a division by zero.
    pub fn update(&mut self) -> (effect: StepEffect)
        requires
            old(self).wf(),
        ensures
            final(self)@ == old(self)@.step(),
            effect == old(self)@.step_effect(),
            final(self).wf(),
            final(self).name == old(self).name,
            final(self).clock_speed == old(self).clock_speed,
    {
        let instruction: u16 = self.read_word();
        match instruction {
            LOAD_AREG => {
                self.a_reg = self.read_word();
                StepEffect::Internal
            },
            LOAD_XREG => {
                self.x_reg = self.read_word();
                StepEffect::Internal
            },
            LOAD_YREG => {
                self.y_reg = self.read_word();
                StepEffect::Internal
            },
            LOAD_GREG => {
                self.g_reg = self.read_word();
                StepEffect::Internal
            },
            STOR_AREG => self.store_register(self.a_reg),
            STOR_XREG => self.store_register(self.x_reg),
            STOR_YREG => self.store_register(self.y_reg),
            STOR_GREG => self.store_register(self.g_reg),
            JMP_TO_SR => {
                self.memory.ram[self.stack_ptr as usize] = self.instr_ptr;
                self.instr_ptr = self.read_word();
                self.increase_stack_ptr();
                StepEffect::Internal
            },
            JMP_TO_AD => {
                self.instr_ptr = self.read_word();
                StepEffect::Internal
            },
            RET_TO_OR => {
                self.decrease_stack_ptr();
                self.instr_ptr = self.memory.ram[self.stack_ptr as usize];
                self.increase_instr_ptr();
                StepEffect::Internal
            },
            COMP_REGS => {
                let first: u16 = self.read_word();
                let second: u16 = self.read_word();
                self.eq_flag = self.resolve(first) == self.resolve(second);
                StepEffect::Internal
            },
            JUMP_IFEQ => {
                if self.eq_flag {
                    self.instr_ptr = self.read_word();
                    self.eq_flag = false;
                } else {
                    self.increase_instr_ptr();
                }
                StepEffect::Internal
            },
            JUMP_INEQ => {
                if self.eq_flag {
                    self.increase_instr_ptr();
                } else {
                    self.instr_ptr = self.read_word();
                }
                StepEffect::Internal
            },
            INC_REG_V | DEC_REG_V | MUL_REG_V | DIV_REG_V => self.arith(instruction),
            HALT_LOOP => {
                self.halt_flag = true;
                StepEffect::Internal
            },
            _ => StepEffect::Internal,
        }
    }

    /// Runs one cycle of the machine: nothing once the machine has halted,
    /// and else the instruction at the instruction pointer. The result is
    /// what the instruction asks of the driver, if one ran.
    pub fn cycle(&mut self) -> (effect: Option<StepEffect>)
        requires
            old(self).wf(),
        ensures
            final(self)@ == old(self)@.cycle(),
            effect == if old(self).halt_flag {
                None
            } else {
                Some(old(self)@.step_effect())
            },
            final(self).wf(),
            final(self).name == old(self).name,
            final(self).clock_speed == old(self).clock_speed,
    {
        if self.halt_flag {
            None
        } else {
            Some(self.update())
        }
    }

    /// Microseconds that the driver sleeps after each instruction to hold
    /// the clock speed.
    pub fn pause_micros(&self) -> (micros: u64)
        requires
            self.clock_speed > 0,
        ensures
            micros == 1_000_000int / (self.clock_speed as int),
    {
        1_000_000u64 / (self.clock_speed as u64)
    }

    /// Reads the ROM word at `address` and changes nothing.
    pub fn read_at(&mut self, address: u16) -> (word: u16)
        requires
            old(self).wf(),
        ensures
            word == old(self)@.rom[address as int],
            *final(self) == *old(self),
    {
        self.memory.rom[address as usize]
    }
}

/// A machine that has halted stays halted and changes no more, however
/// many cycles it is given; only the halt instruction halts a machine.
pub proof fn lemma_halt_is_final(s: CpuState)
    ensures
        s.halt_flag ==> s.cycle() == s,
        s.cycle().halt_flag <==> s.halt_flag || s.current_word() == HALT_LOOP,
{
}

/// An instruction that does not jump leaves the instruction pointer
/// behind its opcode and its operands.
pub proof fn lemma_step_passes_operands(s: CpuState)
    requires
        s.current_word() != JMP_TO_AD,
        s.current_word() != JMP_TO_SR,
        s.current_word() != RET_TO_OR,
        s.current_word() == JUMP_IFEQ ==> !s.eq_flag,
        s.current_word() == JUMP_INEQ ==> s.eq_flag,
    ensures
        s.step().instr_ptr == s.advanced(1 + operand_count(s.current_word())).instr_ptr,
{
    reveal_with_fuel(CpuState::advanced, 4);
}

/// Moving on keeps the instruction pointer inside the program area.
pub proof fn lemma_instr_ptr_stays_in_code(ptr: u16)
    requires
        0x1000 <= ptr <= 0xFFFE,
    ensures
        0x1000 <= next_instr_ptr(ptr) <= 0xFFFE,
        ptr == 0xFFFE ==> next_instr_ptr(ptr) == 0x1000,
        ptr != 0xFFFE ==> next_instr_ptr(ptr) == ptr + 1,
{
}

/// The stack pointer moves modulo 256, and down undoes up.
pub proof fn lemma_stack_ptr_wraps(ptr: u8)
    ensures
        next_stack_ptr(ptr) == (ptr + 1) % 256,
        prev_stack_ptr(ptr) == (ptr + 255) % 256,
        prev_stack_ptr(next_stack_ptr(ptr)) == ptr,
        next_stack_ptr(prev_stack_ptr(ptr)) == ptr,
{
}

/// A comparison sets the equality flag to whether its two operands, each
/// taken as the register it names or else as itself, are equal; it changes
/// no register and moves past both operands.
pub proof fn lemma_compare_sets_flag(s: CpuState)
    requires
        s.current_word() == COMP_REGS,
    ensures
        s.step().eq_flag == (s.resolve(s.advance().current_word()) == s.resolve(
            s.advance().advance().current_word(),
        )),
        s.step() == (CpuState { eq_flag: s.step().eq_flag, ..s.advance().advance().advance() }),
        s.step_effect() == StepEffect::Internal,
{
}

/// A jump-if-equal goes to its target exactly when the equality flag is
/// set, and then clears the flag; otherwise it only moves past its
/// operand.
pub proof fn lemma_jump_if_equal(s: CpuState)
    requires
        s.current_word() == JUMP_IFEQ,
    ensures
        s.eq_flag ==> s.step() == (CpuState {
            instr_ptr: s.advance().current_word(),
            eq_flag: false,
            ..s
        }),
        !s.eq_flag ==> s.step() == s.advance().advance(),
{
}

/// A jump-if-not-equal goes to its target exactly when the equality flag
/// is clear; otherwise it only moves past its operand.
pub proof fn lemma_jump_if_not_equal(s: CpuState)
    requires
        s.current_word() == JUMP_INEQ,
    ensures
        !s.eq_flag ==> s.step() == (CpuState { instr_ptr: s.advance().current_word(), ..s }),
        s.eq_flag ==> s.step() == s.advance().advance(),
{
}

/// The call instruction pushes the address of its own operand and jumps
/// to the address that the operand gives; the return instruction pops an
/// address and goes to the word behind it.
pub proof fn lemma_call_and_return_instructions(s: CpuState)
    requires
        s.wf(),
    ensures
        s.current_word() == JMP_TO_SR ==> s.step() == s.advance().call(
            s.advance().current_word(),
        ),
        s.current_word() == JMP_TO_SR ==> s.step().ram[s.stack_ptr as int] == next_instr_ptr(
            s.instr_ptr,
        ),
        s.current_word() == RET_TO_OR ==> s.step() == s.advance().ret(),
{
}

/// Call and return. A call at `s` goes to the address that its operand
/// gives. A return in any later state whose stack pointer is that right
/// behind the call, and whose stack still holds what the call pushed, goes
/// to the word behind the call and its operand, and leaves the stack
/// pointer as it was before the call.
pub proof fn lemma_call_then_return(s: CpuState, later: CpuState)
    requires
        s.wf(),
        later.wf(),
        s.current_word() == JMP_TO_SR,
        later.current_word() == RET_TO_OR,
        later.stack_ptr == s.step().stack_ptr,
        later.ram[s.stack_ptr as int] == s.step().ram[s.stack_ptr as int],
    ensures
        s.step().instr_ptr == s.advance().current_word(),
        s.step().stack_ptr == next_stack_ptr(s.stack_ptr),
        later.step().instr_ptr == s.advance().advance().instr_ptr,
        later.step().stack_ptr == s.stack_ptr,
{
}

/// The stack pointer that lies `count` pushes above `ptr`, for at most
/// 256 pushes.
pub open spec fn stack_above(ptr: u8, count: int) -> int {
    if ptr + count >= 256 {
        ptr + count - 256
    } else {
        ptr + count
    }
}

/// The stack pointer that lies `count` returns below `ptr`, for at most
/// 256 returns.
pub open spec fn stack_below(ptr: u8, count: int) -> int {
    if ptr - count < 0 {
        ptr - count + 256
    } else {
        ptr - count
    }
}

/// Pushing values fills the slots above the stack pointer in order and
/// moves the pointer behind them; with at most 256 values none is
/// overwritten.
pub proof fn lemma_pushed_all(s: CpuState, values: Seq<u16>)
    requires
        s.wf(),
        values.len() <= 256,
    ensures
        s.pushed_all(values).wf(),
        s.pushed_all(values).stack_ptr == stack_above(s.stack_ptr, values.len() as int),
        s.pushed_all(values).instr_ptr == s.instr_ptr,
        forall|i: int|
            0 <= i < values.len() ==> s.pushed_all(values).ram[#[trigger] stack_above(
                s.stack_ptr,
                i,
            )] == values[i],
    decreases values.len(),
{
    if values.len() > 0 {
        let front = values.drop_last();
        lemma_pushed_all(s, front);
        let before = s.pushed_all(front);
        let after = s.pushed_all(values);
        assert(after == before.pushed(values.last()));
        assert(before.stack_ptr == stack_above(s.stack_ptr, front.len() as int));
        assert forall|i: int| 0 <= i < values.len() implies after.ram[#[trigger] stack_above(
            s.stack_ptr,
            i,
        )] == values[i] by {
            if i < front.len() {
                assert(before.ram[stack_above(s.stack_ptr, i)] == front[i]);
                assert(stack_above(s.stack_ptr, i) != stack_above(
                    s.stack_ptr,
                    front.len() as int,
                ));
            }
        }
    }
}

/// Returns do not write to the stack; each moves the stack pointer down by
/// one and goes behind the address it finds there.
pub proof fn lemma_returned(s: CpuState, count: nat)
    requires
        s.wf(),
        count <= 256,
    ensures
        s.returned(count).wf(),
        s.returned(count).ram == s.ram,
        s.returned(count).stack_ptr == stack_below(s.stack_ptr, count as int),
        count > 0 ==> s.returned(count).instr_ptr == next_instr_ptr(
            s.ram[stack_below(s.stack_ptr, count as int)],
        ),
    decreases count,
{
    if count > 0 {
        lemma_returned(s, (count - 1) as nat);
        let before = s.returned((count - 1) as nat);
        assert(s.returned(count) == before.ret());
        assert(before.stack_ptr == stack_below(s.stack_ptr, count - 1));
        assert(prev_stack_ptr(before.stack_ptr) == stack_below(s.stack_ptr, count as int));
    }
}

/// Nested calls return in reverse order. After the return addresses
/// `values`, at most 256 of them, have been pushed by calls, the return
/// number `k`, counted from zero, goes behind the address that was pushed
/// last but `k`; and when all have returned the stack pointer is where it
/// was before the first call.
pub proof fn lemma_nested_calls_return_in_reverse(s: CpuState, values: Seq<u16>, k: int)
    requires
        s.wf(),
        values.len() <= 256,
        0 <= k < values.len(),
    ensures
        s.pushed_all(values).returned((k + 1) as nat).instr_ptr == next_instr_ptr(
            values[values.len() - 1 - k],
        ),
        s.pushed_all(values).returned(values.len()).stack_ptr == s.stack_ptr,
{
    let top = s.pushed_all(values);
    let count = values.len() as int;
    lemma_pushed_all(s, values);
    lemma_returned(top, (k + 1) as nat);
    lemma_returned(top, values.len());
    assert(top.stack_ptr == stack_above(s.stack_ptr, count));
    assert(stack_below(top.stack_ptr, k + 1) == stack_above(s.stack_ptr, count - 1 - k));
    assert(stack_below(top.stack_ptr, count) == s.stack_ptr);
    assert(top.ram[stack_above(s.stack_ptr, count - 1 - k)] == values[count - 1 - k]);
}

} // verus!
