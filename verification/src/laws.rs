//! What holds of the assembler and the machine together, and of the two
//! readings of the assembler.

use vstd::prelude::*;
use crate::assembler::{
    lemma_parse_laid_out, parse_spec, routines_spec, run, step, ParseModel,
};
use crate::cpu::{CpuState, StepEffect};
use crate::encode::{draw_char_word, encode, gpu_store};
use crate::gpu::{drawn_cell, is_escape, palette, Character};
use crate::image::{image, lemma_image, lemma_laid_out_in_order};
use crate::memory::{high_byte, low_byte, RAM_WORDS};
use crate::opcodes::JMP_TO_SR;
use crate::program::{lookup, Fault, RoutineView};
use crate::text::{line_spans, token_spans, Span};

verus! {

/// Two lists of routines agree in the names, the addresses and the sizes
/// of their routines.
pub open spec fn same_layout(first: Seq<RoutineView>, second: Seq<RoutineView>) -> bool {
    &&& first.len() == second.len()
    &&& forall|i: int| 0 <= i < first.len() ==> (#[trigger] first[i]).same_shape(second[i])
}

/// Two states of the assembler agree in everything but the words that
/// were written.
pub open spec fn same_progress(first: ParseModel, second: ParseModel) -> bool {
    &&& same_layout(first.done, second.done)
    &&& first.instr_ptr == second.instr_ptr
    &&& first.gpu_ptr == second.gpu_ptr
    &&& match (first.current, second.current) {
        (Some(a), Some(b)) => a.same_shape(b),
        (None, None) => true,
        _ => false,
    }
}

/// Lists of routines that agree in names and addresses give every name
/// the same address.
pub proof fn lemma_lookup_same_layout(
    first: Seq<RoutineView>,
    second: Seq<RoutineView>,
    name: Seq<char>,
)
    requires
        same_layout(first, second),
    ensures
        lookup(first, name) == lookup(second, name),
    decreases first.len(),
{
    if first.len() > 0 {
        assert(first.last().same_shape(second.last()));
        assert forall|i: int| 0 <= i < first.drop_last().len() implies (
        #[trigger] first.drop_last()[i]).same_shape(second.drop_last()[i]) by {
            assert(first[i].same_shape(second[i]));
        }
        lemma_lookup_same_layout(first.drop_last(), second.drop_last(), name);
    }
}

/// Which addresses the routine names stand for has no influence on
/// whether a line is at fault, on the number of its words, or on what it
/// does to the GPU command pointer.
pub proof fn lemma_encode_shape(
    src: Seq<char>,
    toks: Seq<Span>,
    gpu_ptr: int,
    first: Seq<RoutineView>,
    second: Seq<RoutineView>,
)
    ensures
        match (encode(src, toks, gpu_ptr, first), encode(src, toks, gpu_ptr, second)) {
            (Ok(a), Ok(b)) => a.words.len() == b.words.len() && a.gpu_after == b.gpu_after,
            (Err(a), Err(b)) => a == b,
            _ => false,
        },
{
}

/// Tables that give every name the same address give every line the same
/// words.
pub proof fn lemma_encode_same_symbols(
    src: Seq<char>,
    toks: Seq<Span>,
    gpu_ptr: int,
    first: Seq<RoutineView>,
    second: Seq<RoutineView>,
)
    requires
        forall|name: Seq<char>| lookup(first, name) == lookup(second, name),
    ensures
        encode(src, toks, gpu_ptr, first) == encode(src, toks, gpu_ptr, second),
{
}

/// With tables that give every name the same address, the assembler goes
/// the same way.
pub proof fn lemma_run_same_symbols(
    src: Seq<char>,
    lines: Seq<Span>,
    from: int,
    state: ParseModel,
    first: Seq<RoutineView>,
    second: Seq<RoutineView>,
)
    requires
        0 <= from,
        forall|name: Seq<char>| lookup(first, name) == lookup(second, name),
    ensures
        run(src, lines, from, state, first) == run(src, lines, from, state, second),
    decreases lines.len() - from,
{
    if from < lines.len() {
        let toks = token_spans(src, lines[from]);
        lemma_encode_same_symbols(src, toks, state.gpu_ptr, first, second);
        assert(step(state, src, lines[from], first) == step(state, src, lines[from], second));
        match step(state, src, lines[from], first) {
            Ok(next) => lemma_run_same_symbols(src, lines, from + 1, next, first, second),
            Err(_) => {},
        }
    }
}

/// One line takes states that agree in everything but the words to states
/// that do, or is at fault in both, whatever the routine names stand for.
pub proof fn lemma_step_same_progress(
    a: ParseModel,
    b: ParseModel,
    src: Seq<char>,
    line: Span,
    first: Seq<RoutineView>,
    second: Seq<RoutineView>,
)
    requires
        same_progress(a, b),
    ensures
        match (step(a, src, line, first), step(b, src, line, second)) {
            (Ok(x), Ok(y)) => same_progress(x, y),
            (Err(x), Err(y)) => x == y,
            _ => false,
        },
{
    let toks = token_spans(src, line);
    lemma_encode_shape(src, toks, a.gpu_ptr, first, second);
    match (step(a, src, line, first), step(b, src, line, second)) {
        (Ok(x), Ok(y)) => {
            assert forall|i: int| 0 <= i < x.done.len() implies (#[trigger] x.done[i]).same_shape(
                y.done[i],
            ) by {
                if i < a.done.len() {
                    assert(a.done[i].same_shape(b.done[i]));
                }
            }
        },
        _ => {},
    }
}

/// From states that agree in everything but the words, the assembler ends
/// in states that do, or meets the same fault, whatever the routine names
/// stand for.
pub proof fn lemma_run_same_progress(
    src: Seq<char>,
    lines: Seq<Span>,
    from: int,
    a: ParseModel,
    b: ParseModel,
    first: Seq<RoutineView>,
    second: Seq<RoutineView>,
)
    requires
        0 <= from,
        same_progress(a, b),
    ensures
        match (run(src, lines, from, a, first), run(src, lines, from, b, second)) {
            (Ok(x), Ok(y)) => same_progress(x, y),
            (Err(x), Err(y)) => x == y,
            _ => false,
        },
    decreases lines.len() - from,
{
    if from < lines.len() {
        lemma_step_same_progress(a, b, src, lines[from], first, second);
        match (step(a, src, lines[from], first), step(b, src, lines[from], second)) {
            (Ok(x), Ok(y)) => lemma_run_same_progress(src, lines, from + 1, x, y, first, second),
            _ => {},
        }
    }
}

/// The layout of a program does not depend on what the routine names
/// stand for: two readings of one source find the same fault, or the same
/// routines at the same addresses with the same number of words.
pub proof fn lemma_layout_independent_of_symbols(
    src: Seq<char>,
    first: Seq<RoutineView>,
    second: Seq<RoutineView>,
)
    ensures
        match (parse_spec(src, first), parse_spec(src, second)) {
            (Ok(a), Ok(b)) => same_layout(a, b),
            (Err(a), Err(b)) => a == b,
            _ => false,
        },
{
    lemma_run_same_progress(
        src,
        line_spans(src),
        0,
        ParseModel::initial(),
        ParseModel::initial(),
        first,
        second,
    );
}

/// Routine names stand for the addresses of the routines themselves.
/// The routines of a program are what one reading of the source gives
/// when every name stands for the address that the routine of that name
/// has in the result, wherever in the source the routine is defined.
pub proof fn lemma_names_resolve_to_routines(src: Seq<char>)
    ensures
        routines_spec(src) matches Ok(routines) ==> parse_spec(src, routines) == Ok::<
            Seq<RoutineView>,
            Fault,
        >(routines),
{
    match routines_spec(src) {
        Ok(routines) => {
            let table = parse_spec(src, Seq::empty())->Ok_0;
            assert(parse_spec(src, table) == Ok::<Seq<RoutineView>, Fault>(routines));
            lemma_layout_independent_of_symbols(src, Seq::empty(), table);
            assert(same_layout(table, routines));
            assert forall|name: Seq<char>| lookup(table, name) == lookup(routines, name) by {
                lemma_lookup_same_layout(table, routines, name);
            }
            lemma_run_same_symbols(
                src,
                line_spans(src),
                0,
                ParseModel::initial(),
                table,
                routines,
            );
        },
        Err(_) => {},
    }
}

/// A program is at fault exactly when its first reading is, or when it
/// defines no routine: the second reading finds no fault of its own.
pub proof fn lemma_faults_show_in_first_reading(src: Seq<char>)
    ensures
        routines_spec(src) is Err <==> (parse_spec(src, Seq::empty()) is Err || parse_spec(
            src,
            Seq::empty(),
        ) == Ok::<Seq<RoutineView>, Fault>(Seq::empty())),
        parse_spec(src, Seq::empty()) matches Err(fault) ==> routines_spec(src) == Err::<
            Seq<RoutineView>,
            Fault,
        >(fault),
{
    match parse_spec(src, Seq::empty()) {
        Ok(table) => {
            lemma_layout_independent_of_symbols(src, Seq::empty(), table);
            let routines = parse_spec(src, table)->Ok_0;
            assert(same_layout(table, routines));
            if table.len() == 0 {
                assert(routines =~= Seq::<RoutineView>::empty());
                assert(table =~= Seq::<RoutineView>::empty());
            }
        },
        Err(_) => {},
    }
}

/// Round trip. The image of a program that assembles, run from reset,
/// starts with the bootstrap: its first two fetches give the call opcode
/// and the address of the routine that was defined last. After that one
/// instruction the instruction pointer is at that routine, whose words lie
/// there in the image.
pub proof fn lemma_bootstrap_reaches_entry(src: Seq<char>, ram: Seq<u16>)
    requires
        ram.len() == RAM_WORDS,
    ensures
        routines_spec(src) matches Ok(routines) ==> {
            let entry = routines.last();
            let start = CpuState::reset(image(routines), ram);
            &&& start.wf()
            &&& start.current_word() == JMP_TO_SR
            &&& start.advance().current_word() == entry.address
            &&& start.step().instr_ptr == entry.address
            &&& 0x1002 <= entry.address <= 0xFFFE
            &&& start.step().stack_ptr == 1
            &&& start.step().rom == image(routines)
            &&& forall|k: int|
                0 <= k < entry.instructions.len() ==> start.step().rom[entry.address + k]
                    == #[trigger] entry.instructions[k]
        },
{
    match routines_spec(src) {
        Ok(routines) => {
            let table = parse_spec(src, Seq::empty())->Ok_0;
            lemma_parse_laid_out(src, table);
            lemma_image(routines);
            lemma_laid_out_in_order(routines);
            let entry = routines.last();
            assert(entry == routines[routines.len() - 1]);
            assert(entry.fits());
            assert forall|k: int| 0 <= k < entry.instructions.len() implies image(
                routines,
            )[entry.address + k] == #[trigger] entry.instructions[k] by {
                assert(image(routines)[routines[routines.len() - 1].address + k]
                    == routines[routines.len() - 1].instructions[k]);
            }
        },
        Err(_) => {},
    }
}

/// The CPU writes to the GPU what the assembler tells it to. Where the
/// four words that the assembler writes for a GPU command lie at the
/// instruction pointer and behind it, also across the end of the program
/// area, the next two instructions load the command word into G and store
/// it at the GPU command pointer: the word is then in the ROM for the GPU
/// to read, the driver is told to write it back, and the instruction
/// pointer is behind the four words.
pub proof fn lemma_gpu_store_runs(s: CpuState, word: u16, ptr: u16)
    requires
        s.wf(),
        forall|k: int|
            0 <= k < 4 ==> #[trigger] s.advanced(k as nat).current_word() == gpu_store(
                word,
                ptr as int,
            )[k],
    ensures
        s.step().step() == (CpuState {
            rom: s.rom.update(ptr as int, word),
            g_reg: word,
            ..s.advanced(4)
        }),
        s.step_effect() == StepEffect::Internal,
        s.step().step_effect() == (StepEffect::Stored { address: ptr }),
{
    reveal_with_fuel(CpuState::advanced, 5);
    let words = gpu_store(word, ptr as int);
    assert(s.advanced(0).current_word() == words[0]);
    assert(s.advanced(1).current_word() == words[1]);
    assert(s.advanced(2).current_word() == words[2]);
    assert(s.advanced(3).current_word() == words[3]);
    let t = s.step();
    assert(t.rom == s.rom);
    assert(t.instr_ptr == s.advanced(2).instr_ptr);
}

/// A colour byte above a character byte makes a word with just these two
/// bytes.
pub proof fn lemma_colour_over_character(color: u8, code: u16)
    requires
        code < 256,
    ensures
        high_byte(((color as u16 * 256) as u16) | code) == color,
        low_byte(((color as u16 * 256) as u16) | code) == code,
{
    let high: u16 = (color as u16 * 256) as u16;
    let joined: u16 = high | code;
    assert(joined / 256 == color as u16 && joined % 256 == code) by (bit_vector)
        requires
            code < 256,
            high == (color as u16) * 256,
            joined == high | code,
    ;
}

/// The GPU draws what the assembler wrote. The word that the assembler
/// writes for a character below code point 256 in some colour is drawn by
/// the GPU as that character in that colour, with a caret drawn as a
/// space; and only the word of a backtick ends draw mode.
pub proof fn lemma_drawn_as_written(c: char, color: u8)
    requires
        (c as u32) < 256,
    ensures
        drawn_cell(draw_char_word(c, color)) == (Character {
            literal: if c == '^' {
                ' '
            } else {
                c
            },
            color: palette(color),
        }),
        is_escape(draw_char_word(c, color)) <==> c == '`',
{
    let code: u16 = if c == '^' {
        0x20
    } else {
        (c as u32 % 0x1_0000) as u16
    };
    lemma_colour_over_character(color, code);
    assert(low_byte(draw_char_word(c, color)) == code);
    if c != '^' {
        assert(code == c as u32);
        assert(code as u8 as char == c);
    } else {
        assert(0x20u8 as char == ' ');
    }
}

} // verus!
