//! The parts of a program as the assembler handles them: routines, the
//! table that gives a routine name its address, and the faults that the
//! assembler reports.

use vstd::prelude::*;
use crate::literal::{decimal, push_decimal};
use crate::opcodes::{operand_count, operands_of};

verus! {

/// The kinds of fault the assembler finds in a program.
#[derive(Clone, Copy, Debug, PartialEq, Eq)]
pub enum AsmErrorKind {
    /// The first word of the line is no instruction that may stand there.
    UnknownInstruction,
    /// The instruction is set aside for later use.
    ReservedInstruction,
    /// The line ends before the instruction has all its operands.
    MissingOperand,
    /// A register other than `A`, `X` or `Y` is named.
    InvalidRegister,
    /// An operand starts with a word that names no kind of operand.
    InvalidOperand,
    /// A number is not written as its kind asks.
    InvalidLiteral,
    /// A number is above 65,535.
    ValueTooBig,
    /// `cmov` is given a direction it does not know.
    UnknownDirection,
    /// `ctrl gpu` is given a command it does not know.
    UnknownGpuControl,
    /// `ctrl cpu` is given a command it does not know.
    UnknownCpuControl,
    /// `ctrl` is given a device it does not know.
    UnknownControl,
    /// The source ends inside a routine.
    UnterminatedRoutine,
    /// The source defines no routine.
    NoRoutine,
    /// The program does not fit into the program area.
    ProgramTooLarge,
}

/// A fault within one line: what is wrong, and with which token.
#[derive(Clone, Copy, Debug, PartialEq, Eq)]
pub struct LineFault {
    pub kind: AsmErrorKind,
    /// Index of the offending token among the tokens of the line.
    pub index: usize,
}

/// A fault of the program as a mathematical value.
pub struct Fault {
    pub kind: AsmErrorKind,
    /// Line number, counted from one.
    pub line: int,
    /// Column of the offending token, counted from one.
    pub column: int,
    /// The offending token.
    pub token: Seq<char>,
}

/// A fault of the program, as the assembler reports it.
#[derive(Clone, Debug, PartialEq, Eq)]
pub struct AsmError {
    pub kind: AsmErrorKind,
    /// Line number, counted from one.
    pub line: usize,
    /// Column of the offending token, counted from one.
    pub column: usize,
    /// The offending token.
    pub token: String,
}

impl View for AsmError {
    type V = Fault;

    open spec fn view(&self) -> Fault {
        Fault {
            kind: self.kind,
            line: self.line as int,
            column: self.column as int,
            token: self.token@,
        }
    }
}

/// The sentence that goes with a kind of fault.
pub open spec fn kind_message(kind: AsmErrorKind) -> Seq<char> {
    match kind {
        AsmErrorKind::UnknownInstruction => "Unknown instruction"@,
        AsmErrorKind::ReservedInstruction => "Reserved instruction"@,
        AsmErrorKind::MissingOperand => "Missing operand"@,
        AsmErrorKind::InvalidRegister => "Unknown register"@,
        AsmErrorKind::InvalidOperand => "Unknown kind of operand"@,
        AsmErrorKind::InvalidLiteral => "Malformed number"@,
        AsmErrorKind::ValueTooBig => "Value too big, must not be bigger than 65535"@,
        AsmErrorKind::UnknownDirection => "Unknown direction"@,
        AsmErrorKind::UnknownGpuControl => "Unknown GPU control"@,
        AsmErrorKind::UnknownCpuControl => "Unknown CPU control"@,
        AsmErrorKind::UnknownControl => "Unknown control"@,
        AsmErrorKind::UnterminatedRoutine => "Routine without end"@,
        AsmErrorKind::NoRoutine => "No routine defined"@,
        AsmErrorKind::ProgramTooLarge => "Program does not fit into the ROM"@,
    }
}

/// The diagnostic of a fault: the sentence that goes with its kind, the
/// offending token, and the line and column in decimal.
pub open spec fn report_text(fault: Fault) -> Seq<char> {
    kind_message(fault.kind) + "\nInvalid Syntax: \""@ + fault.token + "\"\n --> At Line "@
        + decimal(fault.line as nat) + " | Position "@ + decimal(fault.column as nat) + "\n"@
}

impl AsmError {
    /// The diagnostic of the fault, three lines of text.
    pub fn report(&self) -> (text: String)
        ensures
            text@ == report_text(self@),
    {
        let mut text: String = self.message();
        text.append("\nInvalid Syntax: \"");
        text.append(self.token.as_str());
        text.append("\"\n --> At Line ");
        push_decimal(&mut text, self.line);
        text.append(" | Position ");
        push_decimal(&mut text, self.column);
        text.append("\n");
        text
    }

    /// The sentence that describes the fault.
    pub fn message(&self) -> (text: String)
        ensures
            text@ == kind_message(self.kind),
    {
        match self.kind {
            AsmErrorKind::UnknownInstruction => "Unknown instruction".to_owned(),
            AsmErrorKind::ReservedInstruction => "Reserved instruction".to_owned(),
            AsmErrorKind::MissingOperand => "Missing operand".to_owned(),
            AsmErrorKind::InvalidRegister => "Unknown register".to_owned(),
            AsmErrorKind::InvalidOperand => "Unknown kind of operand".to_owned(),
            AsmErrorKind::InvalidLiteral => "Malformed number".to_owned(),
            AsmErrorKind::ValueTooBig => "Value too big, must not be bigger than 65535".to_owned(),
            AsmErrorKind::UnknownDirection => "Unknown direction".to_owned(),
            AsmErrorKind::UnknownGpuControl => "Unknown GPU control".to_owned(),
            AsmErrorKind::UnknownCpuControl => "Unknown CPU control".to_owned(),
            AsmErrorKind::UnknownControl => "Unknown control".to_owned(),
            AsmErrorKind::UnterminatedRoutine => "Routine without end".to_owned(),
            AsmErrorKind::NoRoutine => "No routine defined".to_owned(),
            AsmErrorKind::ProgramTooLarge => "Program does not fit into the ROM".to_owned(),
        }
    }
}

/// A routine as a mathematical value.
pub struct RoutineView {
    pub name: Seq<char>,
    pub address: u16,
    pub instructions: Seq<u16>,
    pub length: u16,
}

impl RoutineView {
    /// The routine lies in the program area behind the bootstrap, and
    /// `length` counts its words.
    pub open spec fn fits(self) -> bool {
        &&& 0x1002 <= self.address <= 0xFFFE
        &&& self.address + self.instructions.len() <= 0xFFFF
        &&& self.length == self.instructions.len()
    }

    /// The two routines have the same name and address and the same
    /// number of words.
    pub open spec fn same_shape(self, other: RoutineView) -> bool {
        &&& self.name == other.name
        &&& self.address == other.address
        &&& self.length == other.length
        &&& self.instructions.len() == other.instructions.len()
    }

    /// The routine with `words` added at its end.
    pub open spec fn extended(self, words: Seq<u16>) -> RoutineView {
        RoutineView {
            instructions: self.instructions + words,
            length: (self.instructions.len() + words.len()) as u16,
            ..self
        }
    }
}

/// A named block of instruction words and the address it is assembled at.
#[derive(Clone, Debug)]
pub struct Routine {
    pub name: String,
    /// Address of the first word.
    pub address: u16,
    pub instructions: Vec<u16>,
    /// Number of words.
    pub length: u16,
}

impl View for Routine {
    type V = RoutineView;

    open spec fn view(&self) -> RoutineView {
        RoutineView {
            name: self.name@,
            address: self.address,
            instructions: self.instructions@,
            length: self.length,
        }
    }
}

impl Routine {
    /// An empty routine at address `ptr`.
    pub fn new(name: String, ptr: u16) -> (routine: Routine)
        ensures
            routine@ == (RoutineView {
                name: name@,
                address: ptr,
                instructions: Seq::empty(),
                length: 0,
            }),
    {
        Routine { name, address: ptr, instructions: Vec::new(), length: 0 }
    }
}

/// The offsets at which the instructions of `words` begin, from the
/// instruction at offset `at` on: each instruction is an opcode with the
/// operand words that the CPU reads behind it.
pub open spec fn instruction_starts_from(words: Seq<u16>, at: int) -> Seq<usize>
    decreases words.len() - at,
{
    if at < 0 || at >= words.len() {
        Seq::empty()
    } else {
        let next = at + 1 + operand_count(words[at]);
        if next >= words.len() {
            seq![at as usize]
        } else {
            seq![at as usize] + instruction_starts_from(words, next)
        }
    }
}

impl Routine {
    /// The offsets at which the instructions of the routine begin.
    pub fn instruction_starts(&self) -> (starts: Vec<usize>)
        ensures
            starts@ == instruction_starts_from(self.instructions@, 0),
    {
        let mut starts: Vec<usize> = Vec::new();
        let mut at: usize = 0;
        assert(starts@ + instruction_starts_from(self.instructions@, 0)
            =~= instruction_starts_from(self.instructions@, 0));
        while at < self.instructions.len()
            invariant
                instruction_starts_from(self.instructions@, 0) == starts@
                    + instruction_starts_from(self.instructions@, at as int),
            decreases self.instructions@.len() - at,
        {
            let operands: usize = operands_of(self.instructions[at]);
            if operands + 1 >= self.instructions.len() - at {
                proof {
                    assert(starts@ + seq![at] =~= starts@.push(at));
                }
                starts.push(at);
                return starts;
            }
            proof {
                let rest = instruction_starts_from(self.instructions@, at + 1 + operands);
                assert(starts@ + (seq![at] + rest) =~= starts@.push(at) + rest);
            }
            starts.push(at);
            at = at + 1 + operands;
        }
        assert(starts@ + Seq::<usize>::empty() =~= starts@);
        starts
    }
}

/// The routines of a list as mathematical values.
pub open spec fn routine_views(routines: Seq<Routine>) -> Seq<RoutineView> {
    routines.map_values(|r: Routine| r@)
}

/// The address that a routine name stands for: that of the last routine of
/// that name, or zero if there is none.
pub open spec fn lookup(routines: Seq<RoutineView>, name: Seq<char>) -> u16
    decreases routines.len(),
{
    if routines.len() == 0 {
        0
    } else if routines.last().name == name {
        routines.last().address
    } else {
        lookup(routines.drop_last(), name)
    }
}

/// Looks a routine name up in a list of routines.
pub fn return_routine_address(routine_name: &str, routines: &Vec<Routine>) -> (address: u16)
    ensures
        address == lookup(routine_views(routines@), routine_name@),
{
    let wanted: String = routine_name.to_owned();
    let ghost all = routine_views(routines@);
    let mut address: u16 = 0;
    let mut i: usize = 0;
    while i < routines.len()
        invariant
            i <= routines@.len(),
            all == routine_views(routines@),
            wanted@ == routine_name@,
            address == lookup(all.take(i as int), routine_name@),
        decreases routines@.len() - i,
    {
        proof {
            let more = all.take(i + 1);
            assert(more.drop_last() =~= all.take(i as int));
            assert(more.last() == routines@[i as int]@);
        }
        if routines[i].name == wanted {
            address = routines[i].address;
        }
        i += 1;
    }
    assert(all.take(i as int) =~= all);
    address
}

} // verus!
