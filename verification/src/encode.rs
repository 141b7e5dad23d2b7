//! How one line of a routine turns into instruction words.
//!
//! A line is a mnemonic followed by operands. An operand that gives a
//! value is written as a kind and a literal: `lit 0x002A`, `num 42` or
//! `hex *`. Registers are written `A`, `X` or `Y`. Commands for the GPU
//! become stores into the GPU command buffer, at a pointer that moves on
//! with every command.

use vstd::prelude::*;
use crate::program::{
    lookup, return_routine_address, routine_views, AsmErrorKind, LineFault, Routine, RoutineView,
};
use crate::literal::{
    char_to_word, char_word, dec_literal, hex_literal, parse_dec_lit, parse_hex_lit, LiteralError,
};
use crate::opcodes::{
    COMP_REGS, DEC_REG_V, DIV_REG_V, DRAW_ESCAPE, GPU_DRAW_LETT, GPU_MV_C_DOWN, GPU_MV_C_LEFT,
    GPU_MV_C_RIGH, GPU_MV_C_UP, GPU_NEW_LINE, GPU_RESET_PTR, GPU_RES_F_BUF, GPU_UPDATE, HALT_LOOP,
    INC_REG_V, JMP_TO_AD, JMP_TO_SR, JUMP_IFEQ, JUMP_INEQ, LOAD_AREG, LOAD_GREG, LOAD_XREG,
    LOAD_YREG, MUL_REG_V, NO_OPERAT, REG_A, REG_X, REG_Y, RET_TO_OR, STOR_AREG, STOR_GREG,
    STOR_XREG, STOR_YREG,
};
use crate::text::{span_is, span_string, Span};

verus! {

/// Colour byte of text drawn without a colour, or with one that has no
/// name.
pub const COLOR_WHITE: u8 = 0x0A;

/// Every token is a nonempty stretch of a text of `len` characters.
pub open spec fn tokens_valid(len: nat, toks: Seq<Span>) -> bool {
    forall|k: int| 0 <= k < toks.len() ==> (#[trigger] toks[k]).start < toks[k].end <= len
}

/// The fault of a line that ends too early.
pub open spec fn missing_operand() -> LineFault {
    LineFault { kind: AsmErrorKind::MissingOperand, index: 0 }
}

/// The fault of a line whose words do not fit into the program area.
pub open spec fn too_large() -> LineFault {
    LineFault { kind: AsmErrorKind::ProgramTooLarge, index: 0 }
}

/// The characters of token `i`.
pub open spec fn word(src: Seq<char>, toks: Seq<Span>, i: int) -> Seq<char> {
    toks[i].text(src)
}

/// The register that token `i` names.
pub open spec fn register_at(src: Seq<char>, toks: Seq<Span>, i: usize) -> Result<u16, LineFault> {
    if i >= toks.len() {
        Err(missing_operand())
    } else if word(src, toks, i as int) == "A"@ {
        Ok(REG_A)
    } else if word(src, toks, i as int) == "X"@ {
        Ok(REG_X)
    } else if word(src, toks, i as int) == "Y"@ {
        Ok(REG_Y)
    } else {
        Err(LineFault { kind: AsmErrorKind::InvalidRegister, index: i })
    }
}

/// A literal that was read at token `i`, as the operand it gives.
pub open spec fn literal_at(read: Result<u16, LiteralError>, i: usize) -> Result<u16, LineFault> {
    match read {
        Ok(value) => Ok(value),
        Err(LiteralError::Malformed) => Err(
            LineFault { kind: AsmErrorKind::InvalidLiteral, index: i },
        ),
        Err(LiteralError::TooBig) => Err(LineFault { kind: AsmErrorKind::ValueTooBig, index: i }),
    }
}

/// The value that tokens `i` and `i + 1` give: a kind, then a literal of
/// that kind. `hex` takes the code point of the first character of its
/// literal.
pub open spec fn value_at(src: Seq<char>, toks: Seq<Span>, i: usize) -> Result<u16, LineFault> {
    if i >= toks.len() {
        Err(missing_operand())
    } else {
        let kind = word(src, toks, i as int);
        let is_hex = kind == "hex"@;
        let is_lit = kind == "lit"@;
        let is_num = kind == "num"@;
        if !is_hex && !is_lit && !is_num {
            Err(LineFault { kind: AsmErrorKind::InvalidOperand, index: i })
        } else if i + 1 >= toks.len() {
            Err(missing_operand())
        } else if is_hex {
            Ok(char_word(word(src, toks, i + 1)[0]))
        } else if is_lit {
            literal_at(hex_literal(word(src, toks, i + 1)), (i + 1) as usize)
        } else {
            literal_at(dec_literal(word(src, toks, i + 1)), (i + 1) as usize)
        }
    }
}

/// The operand of a comparison that starts at token `i`: `reg` and a
/// register, or a value.
pub open spec fn operand_at(src: Seq<char>, toks: Seq<Span>, i: usize) -> Result<u16, LineFault> {
    if i >= toks.len() {
        Err(missing_operand())
    } else if word(src, toks, i as int) == "reg"@ {
        register_at(src, toks, (i + 1) as usize)
    } else {
        value_at(src, toks, i)
    }
}

/// Reads the register that token `arg_pos` names.
pub fn parse_regs(src: &Vec<char>, toks: &Vec<Span>, arg_pos: usize) -> (result: Result<
    u16,
    LineFault,
>)
    requires
        tokens_valid(src@.len(), toks@),
    ensures
        result == register_at(src@, toks@, arg_pos),
{
    if arg_pos >= toks.len() {
        return Err(LineFault { kind: AsmErrorKind::MissingOperand, index: 0 });
    }
    let token: Span = toks[arg_pos];
    if span_is(src, token, "A") {
        Ok(REG_A)
    } else if span_is(src, token, "X") {
        Ok(REG_X)
    } else if span_is(src, token, "Y") {
        Ok(REG_Y)
    } else {
        Err(LineFault { kind: AsmErrorKind::InvalidRegister, index: arg_pos })
    }
}

/// Turns the outcome of reading a literal at token `index` into that of
/// reading the operand.
fn literal_outcome(read: Result<u16, LiteralError>, index: usize) -> (result: Result<
    u16,
    LineFault,
>)
    ensures
        result == literal_at(read, index),
{
    match read {
        Ok(value) => Ok(value),
        Err(LiteralError::Malformed) => Err(
            LineFault { kind: AsmErrorKind::InvalidLiteral, index },
        ),
        Err(LiteralError::TooBig) => Err(LineFault { kind: AsmErrorKind::ValueTooBig, index }),
    }
}

/// Reads the value that starts at token `arg_pos`.
pub fn parse_hex_lit_num(src: &Vec<char>, toks: &Vec<Span>, arg_pos: usize) -> (result: Result<
    u16,
    LineFault,
>)
    requires
        tokens_valid(src@.len(), toks@),
    ensures
        result == value_at(src@, toks@, arg_pos),
{
    if arg_pos >= toks.len() {
        return Err(LineFault { kind: AsmErrorKind::MissingOperand, index: 0 });
    }
    let kind: Span = toks[arg_pos];
    let is_hex: bool = span_is(src, kind, "hex");
    let is_lit: bool = span_is(src, kind, "lit");
    let is_num: bool = span_is(src, kind, "num");
    if !is_hex && !is_lit && !is_num {
        return Err(LineFault { kind: AsmErrorKind::InvalidOperand, index: arg_pos });
    }
    if arg_pos + 1 >= toks.len() {
        return Err(LineFault { kind: AsmErrorKind::MissingOperand, index: 0 });
    }
    let literal: Span = toks[arg_pos + 1];
    if is_hex {
        Ok(char_to_word(src[literal.start]))
    } else if is_lit {
        literal_outcome(parse_hex_lit(src, literal), arg_pos + 1)
    } else {
        literal_outcome(parse_dec_lit(src, literal), arg_pos + 1)
    }
}

/// Reads the operand of a comparison that starts at token `arg_pos`.
pub fn parse_operand(src: &Vec<char>, toks: &Vec<Span>, arg_pos: usize) -> (result: Result<
    u16,
    LineFault,
>)
    requires
        tokens_valid(src@.len(), toks@),
    ensures
        result == operand_at(src@, toks@, arg_pos),
{
    if arg_pos >= toks.len() {
        return Err(LineFault { kind: AsmErrorKind::MissingOperand, index: 0 });
    }
    if span_is(src, toks[arg_pos], "reg") {
        parse_regs(src, toks, arg_pos + 1)
    } else {
        parse_hex_lit_num(src, toks, arg_pos)
    }
}

/// What a line of a routine turns into.
pub struct Encoded {
    /// The instruction words of the line.
    pub words: Seq<u16>,
    /// The GPU command pointer behind the line.
    pub gpu_after: int,
}

/// The words that load `word` into G and store G at `ptr`.
pub open spec fn gpu_store(word: u16, ptr: int) -> Seq<u16> {
    seq![LOAD_GREG, word, STOR_GREG, ptr as u16]
}

/// The opcode that loads the given register.
pub open spec fn load_opcode(reg: u16) -> u16 {
    if reg == REG_A {
        LOAD_AREG
    } else if reg == REG_X {
        LOAD_XREG
    } else {
        LOAD_YREG
    }
}

/// The opcode that stores the given register.
pub open spec fn stor_opcode(reg: u16) -> u16 {
    if reg == REG_A {
        STOR_AREG
    } else if reg == REG_X {
        STOR_XREG
    } else {
        STOR_YREG
    }
}

/// The colour byte that a colour name stands for.
pub open spec fn color_code(name: Seq<char>) -> u8 {
    if name == "red"@ {
        0x0B
    } else if name == "green"@ {
        0x0C
    } else if name == "blue"@ {
        0x0D
    } else if name == "cyan"@ {
        0x0E
    } else if name == "magenta"@ {
        0x0F
    } else {
        COLOR_WHITE
    }
}

/// The GPU word for one character of drawn text: colour byte above,
/// character below. A caret stands for a space.
pub open spec fn draw_char_word(c: char, color: u8) -> u16 {
    let code: u16 = if c == '^' {
        0x20
    } else {
        char_word(c)
    };
    ((color as u16 * 256) as u16) | code
}

/// The stores that put the characters of `text` into the GPU command
/// buffer from `ptr` on.
pub open spec fn draw_chars(text: Seq<char>, color: u8, ptr: int) -> Seq<u16>
    decreases text.len(),
{
    if text.len() == 0 {
        Seq::empty()
    } else {
        draw_chars(text.drop_last(), color, ptr) + gpu_store(
            draw_char_word(text.last(), color),
            ptr + text.len() - 1,
        )
    }
}

/// The words of `draw str`: enter draw mode, the characters, the escape
/// that leaves draw mode, and a redraw.
pub open spec fn draw_words(text: Seq<char>, color: u8, ptr: int) -> Seq<u16> {
    gpu_store(GPU_DRAW_LETT, ptr) + draw_chars(text, color, ptr + 1) + gpu_store(
        DRAW_ESCAPE,
        ptr + 1 + text.len(),
    ) + gpu_store(GPU_UPDATE, ptr + 2 + text.len())
}

/// The words of a line that does not touch the GPU.
pub open spec fn local(words: Result<Seq<u16>, LineFault>, gpu_ptr: int) -> Result<
    Encoded,
    LineFault,
> {
    match words {
        Ok(words) => Ok(Encoded { words, gpu_after: gpu_ptr }),
        Err(fault) => Err(fault),
    }
}

/// `load R value` and `stor R address`: the opcode of the register, then
/// the operand.
pub open spec fn encode_transfer(src: Seq<char>, toks: Seq<Span>, load: bool) -> Result<
    Seq<u16>,
    LineFault,
> {
    match register_at(src, toks, 1) {
        Err(fault) => Err(fault),
        Ok(reg) => match value_at(src, toks, 2) {
            Err(fault) => Err(fault),
            Ok(value) => Ok(
                seq![
                    if load {
                        load_opcode(reg)
                    } else {
                        stor_opcode(reg)
                    },
                    value,
                ],
            ),
        },
    }
}

/// `radd`, `rsub`, `rmul`, `rdiv`: the opcode, the register, the value.
pub open spec fn encode_arith(src: Seq<char>, toks: Seq<Span>, opcode: u16) -> Result<
    Seq<u16>,
    LineFault,
> {
    match register_at(src, toks, 1) {
        Err(fault) => Err(fault),
        Ok(reg) => match value_at(src, toks, 2) {
            Err(fault) => Err(fault),
            Ok(value) => Ok(seq![opcode, reg, value]),
        },
    }
}

/// `jump`, `jusr`, `juie`, `juin`: the opcode, then the address of the
/// routine that is named.
pub open spec fn encode_jump(
    src: Seq<char>,
    toks: Seq<Span>,
    opcode: u16,
    symbols: Seq<RoutineView>,
) -> Result<Seq<u16>, LineFault> {
    if toks.len() < 2 {
        Err(missing_operand())
    } else {
        Ok(seq![opcode, lookup(symbols, word(src, toks, 1))])
    }
}

/// `comp a b`: the opcode and both operands.
pub open spec fn encode_comp(src: Seq<char>, toks: Seq<Span>) -> Result<Seq<u16>, LineFault> {
    match operand_at(src, toks, 1) {
        Err(fault) => Err(fault),
        Ok(first) => match operand_at(src, toks, 3) {
            Err(fault) => Err(fault),
            Ok(second) => Ok(seq![COMP_REGS, first, second]),
        },
    }
}

/// The GPU opcode that a direction of `cmov` stands for.
pub open spec fn direction_code(name: Seq<char>) -> Option<u16> {
    if name == "up"@ {
        Some(GPU_MV_C_UP)
    } else if name == "do"@ {
        Some(GPU_MV_C_DOWN)
    } else if name == "le"@ {
        Some(GPU_MV_C_LEFT)
    } else if name == "ri"@ {
        Some(GPU_MV_C_RIGH)
    } else if name == "nl"@ {
        Some(GPU_NEW_LINE)
    } else {
        None
    }
}

/// `cmov direction`: the cursor move, then a redraw.
pub open spec fn encode_cmov(src: Seq<char>, toks: Seq<Span>, gpu_ptr: int) -> Result<
    Encoded,
    LineFault,
> {
    if toks.len() < 2 {
        Err(missing_operand())
    } else {
        match direction_code(word(src, toks, 1)) {
            None => Err(LineFault { kind: AsmErrorKind::UnknownDirection, index: 1 }),
            Some(code) => Ok(
                Encoded {
                    words: gpu_store(code, gpu_ptr) + gpu_store(GPU_UPDATE, gpu_ptr + 1),
                    gpu_after: gpu_ptr + 2,
                },
            ),
        }
    }
}

/// The GPU opcode that a command of `ctrl gpu` stands for.
pub open spec fn gpu_control_code(name: Seq<char>) -> Option<u16> {
    if name == "clear"@ {
        Some(GPU_RES_F_BUF)
    } else if name == "reset"@ {
        Some(GPU_RESET_PTR)
    } else if name == "update"@ {
        Some(GPU_UPDATE)
    } else {
        None
    }
}

/// The CPU opcode that a command of `ctrl cpu` stands for.
pub open spec fn cpu_control_code(name: Seq<char>) -> Option<u16> {
    if name == "reset"@ {
        Some(NO_OPERAT)
    } else if name == "halt"@ {
        Some(HALT_LOOP)
    } else {
        None
    }
}

/// `ctrl gpu command` is one store into the GPU command buffer; `ctrl cpu
/// command` is one CPU opcode.
pub open spec fn encode_ctrl(src: Seq<char>, toks: Seq<Span>, gpu_ptr: int) -> Result<
    Encoded,
    LineFault,
> {
    if toks.len() < 2 {
        Err(missing_operand())
    } else if word(src, toks, 1) == "gpu"@ {
        if toks.len() < 3 {
            Err(missing_operand())
        } else {
            match gpu_control_code(word(src, toks, 2)) {
                None => Err(LineFault { kind: AsmErrorKind::UnknownGpuControl, index: 2 }),
                Some(code) => Ok(
                    Encoded { words: gpu_store(code, gpu_ptr), gpu_after: gpu_ptr + 1 },
                ),
            }
        }
    } else if word(src, toks, 1) == "cpu"@ {
        if toks.len() < 3 {
            Err(missing_operand())
        } else {
            match cpu_control_code(word(src, toks, 2)) {
                None => Err(LineFault { kind: AsmErrorKind::UnknownCpuControl, index: 2 }),
                Some(code) => Ok(Encoded { words: seq![code], gpu_after: gpu_ptr }),
            }
        }
    } else {
        Err(LineFault { kind: AsmErrorKind::UnknownControl, index: 1 })
    }
}

/// `draw str text` and `draw str text col colour`.
pub open spec fn encode_draw(src: Seq<char>, toks: Seq<Span>, gpu_ptr: int) -> Result<
    Encoded,
    LineFault,
> {
    if toks.len() < 2 {
        Err(missing_operand())
    } else if word(src, toks, 1) != "str"@ {
        Err(LineFault { kind: AsmErrorKind::InvalidOperand, index: 1 })
    } else if toks.len() < 3 {
        Err(missing_operand())
    } else {
        let colored = toks.len() > 3 && word(src, toks, 3) == "col"@;
        if colored && toks.len() < 5 {
            Err(missing_operand())
        } else {
            let color = if colored {
                color_code(word(src, toks, 4))
            } else {
                COLOR_WHITE
            };
            let text = word(src, toks, 2);
            Ok(
                Encoded {
                    words: draw_words(text, color, gpu_ptr),
                    gpu_after: gpu_ptr + text.len() + 3,
                },
            )
        }
    }
}

/// The words of one line of a routine, whose tokens are `toks`, with the
/// GPU command pointer at `gpu_ptr` and routine names standing for the
/// addresses that `symbols` gives.
pub open spec fn encode(
    src: Seq<char>,
    toks: Seq<Span>,
    gpu_ptr: int,
    symbols: Seq<RoutineView>,
) -> Result<Encoded, LineFault> {
    let mnemonic = word(src, toks, 0);
    if mnemonic == "load"@ {
        local(encode_transfer(src, toks, true), gpu_ptr)
    } else if mnemonic == "stor"@ {
        local(encode_transfer(src, toks, false), gpu_ptr)
    } else if mnemonic == "draw"@ {
        encode_draw(src, toks, gpu_ptr)
    } else if mnemonic == "cmov"@ {
        encode_cmov(src, toks, gpu_ptr)
    } else if mnemonic == "ctrl"@ {
        encode_ctrl(src, toks, gpu_ptr)
    } else if mnemonic == "radd"@ {
        local(encode_arith(src, toks, INC_REG_V), gpu_ptr)
    } else if mnemonic == "rsub"@ {
        local(encode_arith(src, toks, DEC_REG_V), gpu_ptr)
    } else if mnemonic == "rmul"@ {
        local(encode_arith(src, toks, MUL_REG_V), gpu_ptr)
    } else if mnemonic == "rdiv"@ {
        local(encode_arith(src, toks, DIV_REG_V), gpu_ptr)
    } else if mnemonic == "jusr"@ {
        local(encode_jump(src, toks, JMP_TO_SR, symbols), gpu_ptr)
    } else if mnemonic == "jump"@ {
        local(encode_jump(src, toks, JMP_TO_AD, symbols), gpu_ptr)
    } else if mnemonic == "juie"@ {
        local(encode_jump(src, toks, JUMP_IFEQ, symbols), gpu_ptr)
    } else if mnemonic == "juin"@ {
        local(encode_jump(src, toks, JUMP_INEQ, symbols), gpu_ptr)
    } else if mnemonic == "comp"@ {
        local(encode_comp(src, toks), gpu_ptr)
    } else if mnemonic == "rtor"@ {
        local(Ok(seq![RET_TO_OR]), gpu_ptr)
    } else if mnemonic == "halt"@ {
        local(Ok(seq![HALT_LOOP]), gpu_ptr)
    } else if mnemonic == "rptr"@ {
        Err(LineFault { kind: AsmErrorKind::ReservedInstruction, index: 0 })
    } else {
        Err(LineFault { kind: AsmErrorKind::UnknownInstruction, index: 0 })
    }
}

/// The outcome of a line when only `room` words are left in the program
/// area: a line that is fine in itself is at fault when its words would
/// take more, or when it would take the GPU command pointer beyond the
/// last address.
pub open spec fn within_room(outcome: Result<Encoded, LineFault>, room: nat) -> Result<
    Encoded,
    LineFault,
> {
    match outcome {
        Ok(encoded) => if encoded.words.len() > room || encoded.gpu_after > 0xFFFF {
            Err(too_large())
        } else {
            Ok(encoded)
        },
        Err(fault) => Err(fault),
    }
}

/// The words and pointer that were computed are those of `outcome`, or
/// the fault is.
pub open spec fn computes(
    result: Result<(Vec<u16>, u16), LineFault>,
    outcome: Result<Encoded, LineFault>,
) -> bool {
    match outcome {
        Ok(encoded) => result matches Ok(pair) && pair.0@ == encoded.words && pair.1
            == encoded.gpu_after,
        Err(fault) => result matches Err(found) && found == fault,
    }
}

/// The words that were computed are those of `outcome`, or the fault is.
pub open spec fn computes_words(
    result: Result<Vec<u16>, LineFault>,
    outcome: Result<Seq<u16>, LineFault>,
) -> bool {
    match outcome {
        Ok(words) => result matches Ok(found) && found@ == words,
        Err(fault) => result matches Err(found) && found == fault,
    }
}

/// `draw_chars` gives four words for each character.
pub proof fn lemma_draw_chars_len(text: Seq<char>, color: u8, ptr: int)
    ensures
        draw_chars(text, color, ptr).len() == 4 * text.len(),
    decreases text.len(),
{
    if text.len() > 0 {
        lemma_draw_chars_len(text.drop_last(), color, ptr);
    }
}

/// `draw str` gives four words for each character and twelve more.
pub proof fn lemma_draw_words_len(text: Seq<char>, color: u8, ptr: int)
    ensures
        draw_words(text, color, ptr).len() == 4 * text.len() + 12,
{
    lemma_draw_chars_len(text, color, ptr + 1);
}

/// A line moves the GPU command pointer forward, and by no more than the
/// number of words it gives.
pub proof fn lemma_encode_bounds(
    src: Seq<char>,
    toks: Seq<Span>,
    gpu_ptr: int,
    symbols: Seq<RoutineView>,
)
    ensures
        encode(src, toks, gpu_ptr, symbols) matches Ok(encoded) ==> gpu_ptr <= encoded.gpu_after
            <= gpu_ptr + encoded.words.len(),
{
    let text = word(src, toks, 2);
    let color = if toks.len() > 3 && word(src, toks, 3) == "col"@ {
        color_code(word(src, toks, 4))
    } else {
        COLOR_WHITE
    };
    lemma_draw_words_len(text, color, gpu_ptr);
}

/// Appends the words that load `word` into G and store G at `ptr`.
fn push_gpu_store(words: &mut Vec<u16>, word: u16, ptr: u16)
    ensures
        final(words)@ == old(words)@ + gpu_store(word, ptr as int),
{
    words.push(LOAD_GREG);
    words.push(word);
    words.push(STOR_GREG);
    words.push(ptr);
    assert(words@ =~= old(words)@ + gpu_store(word, ptr as int));
}

/// Encodes `load` and `stor`.
fn transfer_words(src: &Vec<char>, toks: &Vec<Span>, load: bool) -> (result: Result<
    Vec<u16>,
    LineFault,
>)
    requires
        tokens_valid(src@.len(), toks@),
    ensures
        computes_words(result, encode_transfer(src@, toks@, load)),
{
    let reg: u16 = match parse_regs(src, toks, 1) {
        Ok(reg) => reg,
        Err(fault) => {
            return Err(fault);
        },
    };
    let value: u16 = match parse_hex_lit_num(src, toks, 2) {
        Ok(value) => value,
        Err(fault) => {
            return Err(fault);
        },
    };
    let opcode: u16 = if load {
        if reg == REG_A {
            LOAD_AREG
        } else if reg == REG_X {
            LOAD_XREG
        } else {
            LOAD_YREG
        }
    } else {
        if reg == REG_A {
            STOR_AREG
        } else if reg == REG_X {
            STOR_XREG
        } else {
            STOR_YREG
        }
    };
    let mut words: Vec<u16> = Vec::new();
    words.push(opcode);
    words.push(value);
    assert(words@ =~= seq![opcode, value]);
    Ok(words)
}

/// Encodes `radd`, `rsub`, `rmul` and `rdiv`.
fn arith_words(src: &Vec<char>, toks: &Vec<Span>, opcode: u16) -> (result: Result<
    Vec<u16>,
    LineFault,
>)
    requires
        tokens_valid(src@.len(), toks@),
    ensures
        computes_words(result, encode_arith(src@, toks@, opcode)),
{
    let reg: u16 = match parse_regs(src, toks, 1) {
        Ok(reg) => reg,
        Err(fault) => {
            return Err(fault);
        },
    };
    let value: u16 = match parse_hex_lit_num(src, toks, 2) {
        Ok(value) => value,
        Err(fault) => {
            return Err(fault);
        },
    };
    let mut words: Vec<u16> = Vec::new();
    words.push(opcode);
    words.push(reg);
    words.push(value);
    assert(words@ =~= seq![opcode, reg, value]);
    Ok(words)
}

/// Encodes `jump`, `jusr`, `juie` and `juin`.
fn jump_words(src: &Vec<char>, toks: &Vec<Span>, opcode: u16, symbols: &Vec<Routine>) -> (result:
    Result<Vec<u16>, LineFault>)
    requires
        tokens_valid(src@.len(), toks@),
    ensures
        computes_words(result, encode_jump(src@, toks@, opcode, routine_views(symbols@))),
{
    if toks.len() < 2 {
        return Err(LineFault { kind: AsmErrorKind::MissingOperand, index: 0 });
    }
    let name: String = span_string(src, toks[1]);
    let address: u16 = return_routine_address(name.as_str(), symbols);
    let mut words: Vec<u16> = Vec::new();
    words.push(opcode);
    words.push(address);
    assert(words@ =~= seq![opcode, address]);
    Ok(words)
}

/// Encodes `comp`.
fn comp_words(src: &Vec<char>, toks: &Vec<Span>) -> (result: Result<Vec<u16>, LineFault>)
    requires
        tokens_valid(src@.len(), toks@),
    ensures
        computes_words(result, encode_comp(src@, toks@)),
{
    let first: u16 = match parse_operand(src, toks, 1) {
        Ok(value) => value,
        Err(fault) => {
            return Err(fault);
        },
    };
    let second: u16 = match parse_operand(src, toks, 3) {
        Ok(value) => value,
        Err(fault) => {
            return Err(fault);
        },
    };
    let mut words: Vec<u16> = Vec::new();
    words.push(COMP_REGS);
    words.push(first);
    words.push(second);
    assert(words@ =~= seq![COMP_REGS, first, second]);
    Ok(words)
}

/// Encodes a line that is a single opcode.
fn single_word(opcode: u16) -> (words: Vec<u16>)
    ensures
        words@ == seq![opcode],
{
    let mut words: Vec<u16> = Vec::new();
    words.push(opcode);
    assert(words@ =~= seq![opcode]);
    words
}

/// Reads a direction of `cmov`.
fn direction_of(src: &Vec<char>, token: Span) -> (code: Option<u16>)
    requires
        token.within(src@.len()),
    ensures
        code == direction_code(token.text(src@)),
{
    if span_is(src, token, "up") {
        Some(GPU_MV_C_UP)
    } else if span_is(src, token, "do") {
        Some(GPU_MV_C_DOWN)
    } else if span_is(src, token, "le") {
        Some(GPU_MV_C_LEFT)
    } else if span_is(src, token, "ri") {
        Some(GPU_MV_C_RIGH)
    } else if span_is(src, token, "nl") {
        Some(GPU_NEW_LINE)
    } else {
        None
    }
}

/// Reads a command of `ctrl gpu`.
fn gpu_control_of(src: &Vec<char>, token: Span) -> (code: Option<u16>)
    requires
        token.within(src@.len()),
    ensures
        code == gpu_control_code(token.text(src@)),
{
    if span_is(src, token, "clear") {
        Some(GPU_RES_F_BUF)
    } else if span_is(src, token, "reset") {
        Some(GPU_RESET_PTR)
    } else if span_is(src, token, "update") {
        Some(GPU_UPDATE)
    } else {
        None
    }
}

/// Reads a command of `ctrl cpu`.
fn cpu_control_of(src: &Vec<char>, token: Span) -> (code: Option<u16>)
    requires
        token.within(src@.len()),
    ensures
        code == cpu_control_code(token.text(src@)),
{
    if span_is(src, token, "reset") {
        Some(NO_OPERAT)
    } else if span_is(src, token, "halt") {
        Some(HALT_LOOP)
    } else {
        None
    }
}

/// Reads a colour name.
fn color_of(src: &Vec<char>, token: Span) -> (code: u8)
    requires
        token.within(src@.len()),
    ensures
        code == color_code(token.text(src@)),
{
    if span_is(src, token, "red") {
        0x0B
    } else if span_is(src, token, "green") {
        0x0C
    } else if span_is(src, token, "blue") {
        0x0D
    } else if span_is(src, token, "cyan") {
        0x0E
    } else if span_is(src, token, "magenta") {
        0x0F
    } else {
        COLOR_WHITE
    }
}

/// Encodes `cmov`, unless the words would take more than `room`.
fn cmov_words(src: &Vec<char>, toks: &Vec<Span>, gpu_ptr: u16, room: usize) -> (result: Result<
    (Vec<u16>, u16),
    LineFault,
>)
    requires
        tokens_valid(src@.len(), toks@),
    ensures
        computes(result, within_room(encode_cmov(src@, toks@, gpu_ptr as int), room as nat)),
{
    if toks.len() < 2 {
        return Err(LineFault { kind: AsmErrorKind::MissingOperand, index: 0 });
    }
    match direction_of(src, toks[1]) {
        None => Err(LineFault { kind: AsmErrorKind::UnknownDirection, index: 1 }),
        Some(code) => {
            if room < 8 || gpu_ptr > 0xFFFF - 2 {
                return Err(LineFault { kind: AsmErrorKind::ProgramTooLarge, index: 0 });
            }
            let mut words: Vec<u16> = Vec::new();
            push_gpu_store(&mut words, code, gpu_ptr);
            push_gpu_store(&mut words, GPU_UPDATE, gpu_ptr + 1);
            assert(words@ =~= gpu_store(code, gpu_ptr as int) + gpu_store(
                GPU_UPDATE,
                gpu_ptr + 1,
            ));
            Ok((words, gpu_ptr + 2))
        },
    }
}

/// Encodes `ctrl`, unless the words would take more than `room`.
fn ctrl_words(src: &Vec<char>, toks: &Vec<Span>, gpu_ptr: u16, room: usize) -> (result: Result<
    (Vec<u16>, u16),
    LineFault,
>)
    requires
        tokens_valid(src@.len(), toks@),
    ensures
        computes(result, within_room(encode_ctrl(src@, toks@, gpu_ptr as int), room as nat)),
{
    if toks.len() < 2 {
        return Err(LineFault { kind: AsmErrorKind::MissingOperand, index: 0 });
    }
    if span_is(src, toks[1], "gpu") {
        if toks.len() < 3 {
            return Err(LineFault { kind: AsmErrorKind::MissingOperand, index: 0 });
        }
        match gpu_control_of(src, toks[2]) {
            None => Err(LineFault { kind: AsmErrorKind::UnknownGpuControl, index: 2 }),
            Some(code) => {
                if room < 4 || gpu_ptr > 0xFFFF - 1 {
                    return Err(LineFault { kind: AsmErrorKind::ProgramTooLarge, index: 0 });
                }
                let mut words: Vec<u16> = Vec::new();
                push_gpu_store(&mut words, code, gpu_ptr);
                assert(words@ =~= gpu_store(code, gpu_ptr as int));
                Ok((words, gpu_ptr + 1))
            },
        }
    } else if span_is(src, toks[1], "cpu") {
        if toks.len() < 3 {
            return Err(LineFault { kind: AsmErrorKind::MissingOperand, index: 0 });
        }
        match cpu_control_of(src, toks[2]) {
            None => Err(LineFault { kind: AsmErrorKind::UnknownCpuControl, index: 2 }),
            Some(code) => {
                if room < 1 {
                    return Err(LineFault { kind: AsmErrorKind::ProgramTooLarge, index: 0 });
                }
                Ok((single_word(code), gpu_ptr))
            },
        }
    } else {
        Err(LineFault { kind: AsmErrorKind::UnknownControl, index: 1 })
    }
}

/// The GPU word for one character of drawn text.
fn draw_word_of(c: char, color: u8) -> (word: u16)
    requires
        color <= 0x0F,
    ensures
        word == draw_char_word(c, color),
{
    let code: u16 = if c == '^' {
        0x20
    } else {
        char_to_word(c)
    };
    ((color as u16) * 256) | code
}

/// Encodes `draw`, unless the words would take more than `room`.
fn draw_line(src: &Vec<char>, toks: &Vec<Span>, gpu_ptr: u16, room: usize) -> (result: Result<
    (Vec<u16>, u16),
    LineFault,
>)
    requires
        tokens_valid(src@.len(), toks@),
    ensures
        computes(result, within_room(encode_draw(src@, toks@, gpu_ptr as int), room as nat)),
{
    if toks.len() < 2 {
        return Err(LineFault { kind: AsmErrorKind::MissingOperand, index: 0 });
    }
    if !span_is(src, toks[1], "str") {
        return Err(LineFault { kind: AsmErrorKind::InvalidOperand, index: 1 });
    }
    if toks.len() < 3 {
        return Err(LineFault { kind: AsmErrorKind::MissingOperand, index: 0 });
    }
    let colored: bool = toks.len() > 3 && span_is(src, toks[3], "col");
    if colored && toks.len() < 5 {
        return Err(LineFault { kind: AsmErrorKind::MissingOperand, index: 0 });
    }
    let color: u8 = if colored {
        color_of(src, toks[4])
    } else {
        COLOR_WHITE
    };
    let text: Span = toks[2];
    let ghost chars = text.text(src@);
    let count: usize = text.end - text.start;
    proof {
        lemma_draw_words_len(chars, color, gpu_ptr as int);
    }
    if count > 0xFFFF || 4 * count + 12 > room || gpu_ptr as usize + count + 3 > 0xFFFF {
        return Err(LineFault { kind: AsmErrorKind::ProgramTooLarge, index: 0 });
    }
    let mut words: Vec<u16> = Vec::new();
    push_gpu_store(&mut words, GPU_DRAW_LETT, gpu_ptr);
    let mut done: usize = 0;
    while done < count
        invariant
            text.within(src@.len()),
            chars == text.text(src@),
            count == text.end - text.start,
            done <= count,
            color <= 0x0F,
            gpu_ptr + count + 3 <= 0xFFFF,
            words@ == gpu_store(GPU_DRAW_LETT, gpu_ptr as int) + draw_chars(
                chars.take(done as int),
                color,
                gpu_ptr + 1,
            ),
        decreases count - done,
    {
        let ghost seen = chars.take(done as int);
        let ghost more = chars.take(done + 1);
        let ghost head = gpu_store(GPU_DRAW_LETT, gpu_ptr as int);
        let letter: u16 = draw_word_of(src[text.start + done], color);
        proof {
            assert(more.drop_last() =~= seen);
            assert(more.last() == src@[text.start + done]);
            assert(draw_chars(more, color, gpu_ptr + 1) == draw_chars(seen, color, gpu_ptr + 1)
                + gpu_store(letter, gpu_ptr + 1 + done));
            assert(head + (draw_chars(seen, color, gpu_ptr + 1) + gpu_store(
                letter,
                gpu_ptr + 1 + done,
            )) =~= (head + draw_chars(seen, color, gpu_ptr + 1)) + gpu_store(
                letter,
                gpu_ptr + 1 + done,
            ));
        }
        push_gpu_store(&mut words, letter, gpu_ptr + 1 + (done as u16));
        done += 1;
    }
    assert(chars.take(done as int) =~= chars);
    push_gpu_store(&mut words, DRAW_ESCAPE, gpu_ptr + 1 + (count as u16));
    push_gpu_store(&mut words, GPU_UPDATE, gpu_ptr + 2 + (count as u16));
    Ok((words, gpu_ptr + 3 + (count as u16)))
}

/// Pairs the words of a line that does not touch the GPU with the GPU
/// pointer as it was.
fn keep_pointer(words: Result<Vec<u16>, LineFault>, gpu_ptr: u16) -> (result: Result<
    (Vec<u16>, u16),
    LineFault,
>)
    ensures
        forall|outcome: Result<Seq<u16>, LineFault>|
            computes_words(words, outcome) ==> computes(result, local(outcome, gpu_ptr as int)),
{
    match words {
        Ok(words) => Ok((words, gpu_ptr)),
        Err(fault) => Err(fault),
    }
}

/// Encodes one line of a routine. A line that is fine in itself is
/// reported as too large when its words would take more than `room`, or
/// when it would take the GPU command pointer beyond the last address.
pub fn encode_line(
    src: &Vec<char>,
    toks: &Vec<Span>,
    gpu_ptr: u16,
    room: usize,
    symbols: &Vec<Routine>,
) -> (result: Result<(Vec<u16>, u16), LineFault>)
    requires
        tokens_valid(src@.len(), toks@),
        toks@.len() > 0,
    ensures
        computes(
            result,
            within_room(
                encode(src@, toks@, gpu_ptr as int, routine_views(symbols@)),
                room as nat,
            ),
        ),
{
    let mnemonic: Span = toks[0];
    let found: Result<(Vec<u16>, u16), LineFault> = if span_is(src, mnemonic, "load") {
        keep_pointer(transfer_words(src, toks, true), gpu_ptr)
    } else if span_is(src, mnemonic, "stor") {
        keep_pointer(transfer_words(src, toks, false), gpu_ptr)
    } else if span_is(src, mnemonic, "draw") {
        return draw_line(src, toks, gpu_ptr, room);
    } else if span_is(src, mnemonic, "cmov") {
        return cmov_words(src, toks, gpu_ptr, room);
    } else if span_is(src, mnemonic, "ctrl") {
        return ctrl_words(src, toks, gpu_ptr, room);
    } else if span_is(src, mnemonic, "radd") {
        keep_pointer(arith_words(src, toks, INC_REG_V), gpu_ptr)
    } else if span_is(src, mnemonic, "rsub") {
        keep_pointer(arith_words(src, toks, DEC_REG_V), gpu_ptr)
    } else if span_is(src, mnemonic, "rmul") {
        keep_pointer(arith_words(src, toks, MUL_REG_V), gpu_ptr)
    } else if span_is(src, mnemonic, "rdiv") {
        keep_pointer(arith_words(src, toks, DIV_REG_V), gpu_ptr)
    } else if span_is(src, mnemonic, "jusr") {
        keep_pointer(jump_words(src, toks, JMP_TO_SR, symbols), gpu_ptr)
    } else if span_is(src, mnemonic, "jump") {
        keep_pointer(jump_words(src, toks, JMP_TO_AD, symbols), gpu_ptr)
    } else if span_is(src, mnemonic, "juie") {
        keep_pointer(jump_words(src, toks, JUMP_IFEQ, symbols), gpu_ptr)
    } else if span_is(src, mnemonic, "juin") {
        keep_pointer(jump_words(src, toks, JUMP_INEQ, symbols), gpu_ptr)
    } else if span_is(src, mnemonic, "comp") {
        keep_pointer(comp_words(src, toks), gpu_ptr)
    } else if span_is(src, mnemonic, "rtor") {
        Ok((single_word(RET_TO_OR), gpu_ptr))
    } else if span_is(src, mnemonic, "halt") {
        Ok((single_word(HALT_LOOP), gpu_ptr))
    } else if span_is(src, mnemonic, "rptr") {
        Err(LineFault { kind: AsmErrorKind::ReservedInstruction, index: 0 })
    } else {
        Err(LineFault { kind: AsmErrorKind::UnknownInstruction, index: 0 })
    };
    assert(computes(found, encode(src@, toks@, gpu_ptr as int, routine_views(symbols@))));
    match found {
        Ok((words, pointer)) => {
            if words.len() > room {
                Err(LineFault { kind: AsmErrorKind::ProgramTooLarge, index: 0 })
            } else {
                Ok((words, pointer))
            }
        },
        Err(fault) => Err(fault),
    }
}

} // verus!
