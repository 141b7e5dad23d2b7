//! Numeric values of the CPU and GPU instruction words.
//!
//! CPU opcodes live in the low byte of a word; GPU opcodes all carry the
//! high byte `0xA0`, which keeps the two instruction spaces apart.

use vstd::prelude::*;

verus! {

/// Advances the instruction pointer and does nothing else.
pub const NO_OPERAT: u16 = 0x0000;

/// Loads the following word into register A.
pub const LOAD_AREG: u16 = 0x00A1;

/// Reserved; treated like an unknown word.
pub const LOAD_BREG: u16 = 0x00A2;

/// Loads the following word into register X.
pub const LOAD_XREG: u16 = 0x0002;

/// Loads the following word into register Y.
pub const LOAD_YREG: u16 = 0x0003;

/// Loads the following word into register G.
pub const LOAD_GREG: u16 = 0x00AF;

/// Stores register A at the address given by the following word.
pub const STOR_AREG: u16 = 0x0011;

/// Stores register X at the address given by the following word.
pub const STOR_XREG: u16 = 0x0012;

/// Stores register Y at the address given by the following word.
pub const STOR_YREG: u16 = 0x0013;

/// Stores register G at the address given by the following word.
pub const STOR_GREG: u16 = 0x00BF;

/// Jumps to the address given by the following word.
pub const JMP_TO_AD: u16 = 0x0020;

/// Calls the subroutine at the address given by the following word.
pub const JMP_TO_SR: u16 = 0x0021;

/// Jumps if the equality flag is set, and clears it when it does.
pub const JUMP_IFEQ: u16 = 0x0022;

/// Jumps if the equality flag is clear.
pub const JUMP_INEQ: u16 = 0x0023;

/// Returns from the innermost subroutine call.
pub const RET_TO_OR: u16 = 0x0031;

/// Compares two operands and sets the equality flag.
pub const COMP_REGS: u16 = 0x0004;

/// Adds the second operand to the register named by the first.
pub const INC_REG_V: u16 = 0x0042;

/// Subtracts the second operand from the register named by the first.
pub const DEC_REG_V: u16 = 0x0043;

/// Multiplies the register named by the first operand by the second.
pub const MUL_REG_V: u16 = 0x0044;

/// Divides the register named by the first operand by the second.
pub const DIV_REG_V: u16 = 0x0045;

/// Sets the halt flag.
pub const HALT_LOOP: u16 = 0x000F;

/// Operand word that names register A.
pub const REG_A: u16 = 0x0041;

/// Operand word that names register X.
pub const REG_X: u16 = 0x0058;

/// Operand word that names register Y.
pub const REG_Y: u16 = 0x0059;

/// GPU: advance the buffer pointer.
pub const GPU_NO_OPERAT: u16 = 0xA000;

/// GPU: enter draw mode.
pub const GPU_DRAW_LETT: u16 = 0xA001;

/// GPU: render the framebuffer.
pub const GPU_UPDATE: u16 = 0xA002;

/// GPU: move the buffer pointer back to the start of the buffer.
pub const GPU_RESET_PTR: u16 = 0xA0A2;

/// GPU: clear the framebuffer and home the cursor.
pub const GPU_RES_F_BUF: u16 = 0xA0A3;

/// GPU: move the cursor up one row.
pub const GPU_MV_C_UP: u16 = 0xA0B0;

/// GPU: move the cursor down one row.
pub const GPU_MV_C_DOWN: u16 = 0xA0B1;

/// GPU: move the cursor left one column.
pub const GPU_MV_C_LEFT: u16 = 0xA0B2;

/// GPU: move the cursor right one column.
pub const GPU_MV_C_RIGH: u16 = 0xA0B3;

/// GPU: move the cursor to the start of the next row.
pub const GPU_NEW_LINE: u16 = 0xA0B4;

/// Word that ends draw mode: a backtick with colour byte zero.
pub const DRAW_ESCAPE: u16 = 0x0060;

/// The words the CPU gives a meaning of their own.
pub open spec fn is_cpu_opcode(word: u16) -> bool {
    ||| word == NO_OPERAT
    ||| word == LOAD_AREG
    ||| word == LOAD_BREG
    ||| word == LOAD_XREG
    ||| word == LOAD_YREG
    ||| word == LOAD_GREG
    ||| word == STOR_AREG
    ||| word == STOR_XREG
    ||| word == STOR_YREG
    ||| word == STOR_GREG
    ||| word == JMP_TO_AD
    ||| word == JMP_TO_SR
    ||| word == JUMP_IFEQ
    ||| word == JUMP_INEQ
    ||| word == RET_TO_OR
    ||| word == COMP_REGS
    ||| word == INC_REG_V
    ||| word == DEC_REG_V
    ||| word == MUL_REG_V
    ||| word == DIV_REG_V
    ||| word == HALT_LOOP
}

/// Number of operand words that the CPU reads behind an opcode. Words
/// that are no opcode have none.
pub open spec fn operand_count(word: u16) -> nat {
    if word == LOAD_AREG || word == LOAD_XREG || word == LOAD_YREG || word == LOAD_GREG || word
        == STOR_AREG || word == STOR_XREG || word == STOR_YREG || word == STOR_GREG || word
        == JMP_TO_AD || word == JMP_TO_SR || word == JUMP_IFEQ || word == JUMP_INEQ {
        1
    } else if word == COMP_REGS || word == INC_REG_V || word == DEC_REG_V || word == MUL_REG_V
        || word == DIV_REG_V {
        2
    } else {
        0
    }
}

/// Number of operand words that the CPU reads behind an opcode.
pub fn operands_of(word: u16) -> (count: usize)
    ensures
        count == operand_count(word),
{
    match word {
        LOAD_AREG | LOAD_XREG | LOAD_YREG | LOAD_GREG => 1,
        STOR_AREG | STOR_XREG | STOR_YREG | STOR_GREG => 1,
        JMP_TO_AD | JMP_TO_SR | JUMP_IFEQ | JUMP_INEQ => 1,
        COMP_REGS | INC_REG_V | DEC_REG_V | MUL_REG_V | DIV_REG_V => 2,
        _ => 0,
    }
}

/// The range set aside for GPU opcodes.
pub open spec fn in_gpu_opcode_space(word: u16) -> bool {
    0xA000 <= word <= 0xA0FF
}

/// The words the GPU gives a meaning of their own outside draw mode.
pub open spec fn is_gpu_opcode(word: u16) -> bool {
    ||| word == GPU_NO_OPERAT
    ||| word == GPU_DRAW_LETT
    ||| word == GPU_UPDATE
    ||| word == GPU_RESET_PTR
    ||| word == GPU_RES_F_BUF
    ||| word == GPU_MV_C_UP
    ||| word == GPU_MV_C_DOWN
    ||| word == GPU_MV_C_LEFT
    ||| word == GPU_MV_C_RIGH
    ||| word == GPU_NEW_LINE
}

/// Every CPU opcode has high byte zero and lies at or below `0x00DF`.
pub proof fn lemma_cpu_opcodes_are_low(word: u16)
    requires
        is_cpu_opcode(word),
    ensures
        word <= 0x00DF,
{
}

/// Every GPU opcode lies in the range set aside for them.
pub proof fn lemma_gpu_opcodes_in_space(word: u16)
    requires
        is_gpu_opcode(word),
    ensures
        in_gpu_opcode_space(word),
{
}

/// No word is both a CPU opcode and a GPU opcode: the two instruction
/// spaces are disjoint.
pub proof fn lemma_opcode_spaces_disjoint(word: u16)
    ensures
        !(is_cpu_opcode(word) && in_gpu_opcode_space(word)),
        !(is_cpu_opcode(word) && is_gpu_opcode(word)),
{
}

} // verus!
