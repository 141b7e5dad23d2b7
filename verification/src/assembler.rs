//! The assembler: from the text of a program to the ROM image that runs it.
//!
//! A program is a list of routines, each opened by `routine: name` and
//! closed by `end`. The assembler reads the source twice. The first
//! reading finds where each routine will lie; the second writes the
//! instruction words, with every routine name replaced by the address
//! found for it, so that a routine may be named before it is defined.
//!
//! What the assembler produces is defined on plain sequences by
//! [`assemble_spec`]; the executable functions are proved to compute it.

use vstd::prelude::*;
use crate::encode::{
    encode, encode_line, lemma_encode_bounds, tokens_valid, too_large, within_room, word,
};
use crate::image::{
    image, laid_out, lemma_laid_out_in_order, link, program_end, FIRST_ROUTINE,
};
use crate::memory::GPU_BUFFER_START;
use crate::program::{
    routine_views, AsmError, AsmErrorKind, Fault, LineFault, Routine, RoutineView,
};
use crate::text::{
    collect_chars, line_spans, span_is, span_string, split_lines, split_tokens, token_spans,
    tokens_within, Span,
};

verus! {

/// Where the assembler stands between two lines.
pub struct ParseModel {
    /// The routines that are closed, in the order of their definition.
    pub done: Seq<RoutineView>,
    /// The routine that is open, if one is.
    pub current: Option<RoutineView>,
    /// The address of the open routine, or that of the next one.
    pub instr_ptr: int,
    /// The GPU command pointer.
    pub gpu_ptr: int,
}

impl ParseModel {
    /// The state before the first line.
    pub open spec fn initial() -> ParseModel {
        ParseModel {
            done: Seq::empty(),
            current: None,
            instr_ptr: FIRST_ROUTINE as int,
            gpu_ptr: GPU_BUFFER_START as int,
        }
    }

    /// Number of words in the open routine.
    pub open spec fn open_words(self) -> int {
        match self.current {
            Some(routine) => routine.instructions.len() as int,
            None => 0,
        }
    }

    /// The bounds that hold of every state the assembler reaches.
    pub open spec fn wf(self) -> bool {
        &&& 0x1002 <= self.instr_ptr <= 0x1_0000
        &&& 0x0300 <= self.gpu_ptr
        &&& self.gpu_ptr - 0x0300 <= self.instr_ptr - 0x1002 + self.open_words()
        &&& laid_out(self.done)
        &&& self.instr_ptr == program_end(self.done)
        &&& self.current matches Some(routine) ==> {
            &&& routine.address == self.instr_ptr
            &&& routine.fits()
        }
    }
}

/// Whether a line that starts with this token is a comment.
pub open spec fn is_comment(token: Seq<char>) -> bool {
    token == "#"@ || token == "//"@
}

/// The state behind a line, or the fault of the line.
///
/// Blank lines and comments change nothing. Outside a routine only
/// `routine: name` may stand, which opens a routine at the current
/// address. Inside a routine `end` closes it and leaves one word free
/// behind it; any other line adds its words to the routine.
pub open spec fn step(state: ParseModel, src: Seq<char>, line: Span, symbols: Seq<RoutineView>)
    -> Result<ParseModel, LineFault> {
    let toks = token_spans(src, line);
    if toks.len() == 0 || is_comment(word(src, toks, 0)) {
        Ok(state)
    } else {
        match state.current {
            None => {
                if word(src, toks, 0) != "routine:"@ {
                    Err(LineFault { kind: AsmErrorKind::UnknownInstruction, index: 0 })
                } else if toks.len() < 2 {
                    Err(LineFault { kind: AsmErrorKind::MissingOperand, index: 0 })
                } else if state.instr_ptr > 0xFFFE {
                    Err(too_large())
                } else {
                    Ok(
                        ParseModel {
                            current: Some(
                                RoutineView {
                                    name: word(src, toks, 1),
                                    address: state.instr_ptr as u16,
                                    instructions: Seq::empty(),
                                    length: 0,
                                },
                            ),
                            ..state
                        },
                    )
                }
            },
            Some(routine) => {
                if word(src, toks, 0) == "end"@ {
                    Ok(
                        ParseModel {
                            done: state.done.push(routine),
                            current: None,
                            instr_ptr: state.instr_ptr + routine.instructions.len() + 1,
                            ..state
                        },
                    )
                } else {
                    let room = 0xFFFF - routine.address - routine.instructions.len();
                    match within_room(encode(src, toks, state.gpu_ptr, symbols), room as nat) {
                        Err(fault) => Err(fault),
                        Ok(encoded) => Ok(
                            ParseModel {
                                current: Some(routine.extended(encoded.words)),
                                gpu_ptr: encoded.gpu_after,
                                ..state
                            },
                        ),
                    }
                }
            },
        }
    }
}

/// The fault of the program that a fault of line number `number` is: the
/// offending token with its column.
pub open spec fn fault_at(src: Seq<char>, number: int, line: Span, fault: LineFault) -> Fault {
    let toks = token_spans(src, line);
    if fault.index < toks.len() {
        Fault {
            kind: fault.kind,
            line: number,
            column: toks[fault.index as int].start - line.start + 1,
            token: word(src, toks, fault.index as int),
        }
    } else {
        Fault { kind: fault.kind, line: number, column: 1, token: Seq::empty() }
    }
}

/// The state behind the last line when the assembler goes on from line
/// index `from` in `state`, or the first fault it meets.
pub open spec fn run(
    src: Seq<char>,
    lines: Seq<Span>,
    from: int,
    state: ParseModel,
    symbols: Seq<RoutineView>,
) -> Result<ParseModel, Fault>
    decreases lines.len() - from,
{
    if from >= lines.len() {
        Ok(state)
    } else {
        match step(state, src, lines[from], symbols) {
            Err(fault) => Err(fault_at(src, from + 1, lines[from], fault)),
            Ok(next) => run(src, lines, from + 1, next, symbols),
        }
    }
}

/// The fault of a program as a whole, reported at its last line, which is
/// line zero where the source has no line.
pub open spec fn fault_at_end(src: Seq<char>, kind: AsmErrorKind) -> Fault {
    Fault { kind, line: line_spans(src).len() as int, column: 1, token: Seq::empty() }
}

/// The routines of a program, with routine names standing for the
/// addresses that `symbols` gives.
pub open spec fn parse_spec(src: Seq<char>, symbols: Seq<RoutineView>) -> Result<
    Seq<RoutineView>,
    Fault,
> {
    match run(src, line_spans(src), 0, ParseModel::initial(), symbols) {
        Err(fault) => Err(fault),
        Ok(state) => if state.current is Some {
            Err(fault_at_end(src, AsmErrorKind::UnterminatedRoutine))
        } else {
            Ok(state.done)
        },
    }
}

/// The routines of a program, with routine names standing for the
/// addresses of the routines themselves.
pub open spec fn routines_spec(src: Seq<char>) -> Result<Seq<RoutineView>, Fault> {
    match parse_spec(src, Seq::empty()) {
        Err(fault) => Err(fault),
        Ok(table) => match parse_spec(src, table) {
            Err(fault) => Err(fault),
            Ok(routines) => if routines.len() == 0 {
                Err(fault_at_end(src, AsmErrorKind::NoRoutine))
            } else {
                Ok(routines)
            },
        },
    }
}

/// The ROM image of a program.
pub open spec fn assemble_spec(src: Seq<char>) -> Result<Seq<u16>, Fault> {
    match routines_spec(src) {
        Err(fault) => Err(fault),
        Ok(routines) => Ok(image(routines)),
    }
}

/// A step from a state within its bounds leads to a state within its
/// bounds.
pub proof fn lemma_step_wf(
    state: ParseModel,
    src: Seq<char>,
    line: Span,
    symbols: Seq<RoutineView>,
)
    requires
        state.wf(),
    ensures
        step(state, src, line, symbols) matches Ok(next) ==> next.wf(),
{
    let toks = token_spans(src, line);
    lemma_encode_bounds(src, toks, state.gpu_ptr, symbols);
    match step(state, src, line, symbols) {
        Ok(next) => {
            if next.done.len() > state.done.len() {
                assert(next.done.drop_last() =~= state.done);
            }
        },
        Err(_) => {},
    }
}

/// Within a program the GPU command pointer never outruns the words: a
/// line whose words fit behind the open routine leaves the pointer below
/// the last address, so that the only lines of a program that are
/// reported as too large are those whose words do not fit.
pub proof fn lemma_pointer_fits_where_words_fit(
    state: ParseModel,
    src: Seq<char>,
    line: Span,
    symbols: Seq<RoutineView>,
)
    requires
        state.wf(),
        state.current is Some,
    ensures
        encode(src, token_spans(src, line), state.gpu_ptr, symbols) matches Ok(encoded) ==> (
        state.instr_ptr + state.open_words() + encoded.words.len() <= 0xFFFF
            ==> encoded.gpu_after < 0xFFFF),
{
    lemma_encode_bounds(src, token_spans(src, line), state.gpu_ptr, symbols);
}

/// Going on from a state within its bounds ends in a state within its
/// bounds.
pub proof fn lemma_run_wf(
    src: Seq<char>,
    lines: Seq<Span>,
    from: int,
    state: ParseModel,
    symbols: Seq<RoutineView>,
)
    requires
        state.wf(),
        0 <= from,
    ensures
        run(src, lines, from, state, symbols) matches Ok(end) ==> end.wf(),
    decreases lines.len() - from,
{
    if from < lines.len() {
        lemma_step_wf(state, src, lines[from], symbols);
        match step(state, src, lines[from], symbols) {
            Ok(next) => lemma_run_wf(src, lines, from + 1, next, symbols),
            Err(_) => {},
        }
    }
}

/// The routines of a program lie one behind the other in the program
/// area, in the order of their definition.
pub proof fn lemma_parse_laid_out(src: Seq<char>, symbols: Seq<RoutineView>)
    ensures
        parse_spec(src, symbols) matches Ok(routines) ==> laid_out(routines),
{
    assert(ParseModel::initial().done.len() == 0);
    lemma_run_wf(src, line_spans(src), 0, ParseModel::initial(), symbols);
}

/// The state that the assembler's variables stand for.
pub open spec fn model(
    done: Seq<Routine>,
    current: Option<Routine>,
    instr_ptr: u32,
    gpu_ptr: u16,
) -> ParseModel {
    ParseModel {
        done: routine_views(done),
        current: match current {
            Some(routine) => Some(routine@),
            None => None,
        },
        instr_ptr: instr_ptr as int,
        gpu_ptr: gpu_ptr as int,
    }
}

/// Builds the report of a fault in line `number`.
fn make_error(
    src: &Vec<char>,
    number: usize,
    line: Span,
    toks: &Vec<Span>,
    fault: LineFault,
) -> (error: AsmError)
    requires
        line.within(src@.len()),
        toks@ == token_spans(src@, line),
        tokens_within(toks@, line),
    ensures
        error@ == fault_at(src@, number as int, line, fault),
{
    if fault.index < toks.len() {
        let token: Span = toks[fault.index];
        AsmError {
            kind: fault.kind,
            line: number,
            column: token.start - line.start + 1,
            token: span_string(src, token),
        }
    } else {
        AsmError { kind: fault.kind, line: number, column: 1, token: String::new() }
    }
}

/// Builds the report of a fault of the program as a whole.
fn make_error_at_end(src: &Vec<char>, lines: &Vec<Span>, kind: AsmErrorKind) -> (error: AsmError)
    requires
        lines@ == line_spans(src@),
    ensures
        error@ == fault_at_end(src@, kind),
{
    AsmError { kind, line: lines.len(), column: 1, token: String::new() }
}

/// Reads the routines of a program, with routine names standing for the
/// addresses that `symbols` gives.
pub fn parse(src: &Vec<char>, symbols: &Vec<Routine>) -> (result: Result<Vec<Routine>, AsmError>)
    ensures
        match parse_spec(src@, routine_views(symbols@)) {
            Ok(routines) => result matches Ok(found) && routine_views(found@) == routines
                && laid_out(routines),
            Err(fault) => result matches Err(error) && error@ == fault,
        },
{
    let ghost table = routine_views(symbols@);
    let lines: Vec<Span> = split_lines(src);
    let mut done: Vec<Routine> = Vec::new();
    let mut current: Option<Routine> = None;
    let mut instr_ptr: u32 = FIRST_ROUTINE as u32;
    let mut gpu_ptr: u16 = GPU_BUFFER_START;
    let mut i: usize = 0;
    assert(routine_views(done@) =~= Seq::<RoutineView>::empty());
    while i < lines.len()
        invariant
            i <= lines@.len(),
            lines@ == line_spans(src@),
            forall|k: int| 0 <= k < lines@.len() ==> (#[trigger] lines@[k]).within(src@.len()),
            table == routine_views(symbols@),
            model(done@, current, instr_ptr, gpu_ptr).wf(),
            run(src@, lines@, 0, ParseModel::initial(), table) == run(
                src@,
                lines@,
                i as int,
                model(done@, current, instr_ptr, gpu_ptr),
                table,
            ),
        decreases lines@.len() - i,
    {
        let line: Span = lines[i];
        let toks: Vec<Span> = split_tokens(src, line);
        let ghost before = model(done@, current, instr_ptr, gpu_ptr);
        proof {
            assert(tokens_valid(src@.len(), toks@));
            lemma_step_wf(before, src@, line, table);
        }
        if toks.len() == 0 || span_is(src, toks[0], "#") || span_is(src, toks[0], "//") {
        } else {
            match current {
                None => {
                    if !span_is(src, toks[0], "routine:") {
                        return Err(
                            make_error(
                                src,
                                i + 1,
                                line,
                                &toks,
                                LineFault { kind: AsmErrorKind::UnknownInstruction, index: 0 },
                            ),
                        );
                    }
                    if toks.len() < 2 {
                        return Err(
                            make_error(
                                src,
                                i + 1,
                                line,
                                &toks,
                                LineFault { kind: AsmErrorKind::MissingOperand, index: 0 },
                            ),
                        );
                    }
                    if instr_ptr > 0xFFFE {
                        return Err(
                            make_error(
                                src,
                                i + 1,
                                line,
                                &toks,
                                LineFault { kind: AsmErrorKind::ProgramTooLarge, index: 0 },
                            ),
                        );
                    }
                    let name: String = span_string(src, toks[1]);
                    current = Some(Routine::new(name, instr_ptr as u16));
                },
                Some(routine) => {
                    let mut routine: Routine = routine;
                    if span_is(src, toks[0], "end") {
                        instr_ptr = instr_ptr + routine.instructions.len() as u32 + 1;
                        proof {
                            assert(routine_views(done@.push(routine)) =~= routine_views(
                                done@,
                            ).push(routine@));
                        }
                        done.push(routine);
                        current = None;
                    } else {
                        let room: usize = 0xFFFF - routine.address as usize
                            - routine.instructions.len();
                        match encode_line(src, &toks, gpu_ptr, room, symbols) {
                            Err(fault) => {
                                return Err(make_error(src, i + 1, line, &toks, fault));
                            },
                            Ok(pair) => {
                                let mut words: Vec<u16> = pair.0;
                                routine.instructions.append(&mut words);
                                routine.length = routine.instructions.len() as u16;
                                gpu_ptr = pair.1;
                                current = Some(routine);
                            },
                        }
                    }
                },
            }
        }
        assert(step(before, src@, line, table) == Ok::<ParseModel, LineFault>(
            model(done@, current, instr_ptr, gpu_ptr),
        ));
        i += 1;
    }
    if current.is_some() {
        return Err(make_error_at_end(src, &lines, AsmErrorKind::UnterminatedRoutine));
    }
    Ok(done)
}

/// Reads the routines of a program: once to find their addresses, and
/// once more to write their words with those addresses for the names.
pub fn assemble_routines(source: &str) -> (result: Result<Vec<Routine>, AsmError>)
    ensures
        match routines_spec(source@) {
            Ok(routines) => result matches Ok(found) && routine_views(found@) == routines
                && laid_out(routines) && routines.len() > 0,
            Err(fault) => result matches Err(error) && error@ == fault,
        },
{
    let src: Vec<char> = collect_chars(source);
    let none: Vec<Routine> = Vec::new();
    assert(routine_views(none@) =~= Seq::<RoutineView>::empty());
    let table: Vec<Routine> = match parse(&src, &none) {
        Ok(table) => table,
        Err(error) => {
            return Err(error);
        },
    };
    let routines: Vec<Routine> = match parse(&src, &table) {
        Ok(routines) => routines,
        Err(error) => {
            return Err(error);
        },
    };
    if routines.len() == 0 {
        let lines: Vec<Span> = split_lines(&src);
        return Err(make_error_at_end(&src, &lines, AsmErrorKind::NoRoutine));
    }
    Ok(routines)
}

/// Assembles a program into its ROM image.
///
/// The image holds the character table, the GPU command buffer filled
/// with no-operation words, the bootstrap jump to the routine that was
/// defined last, and every routine at its address. A fault in the source
/// is reported with its line, its column and the offending token.
pub fn assemble(source: &str) -> (result: Result<Vec<u16>, AsmError>)
    ensures
        match assemble_spec(source@) {
            Ok(rom) => result matches Ok(found) && found@ == rom && rom.len() == 0x1_0000,
            Err(fault) => result matches Err(error) && error@ == fault,
        },
{
    match assemble_routines(source) {
        Ok(routines) => {
            proof {
                lemma_laid_out_in_order(routine_views(routines@));
            }
            Ok(link(&routines))
        },
        Err(error) => Err(error),
    }
}

} // verus!
