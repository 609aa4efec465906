//! The typed form of a debugger command and of its arguments.

use vstd::prelude::*;

use crate::naive::NaiveType;

verus! {

/// One of the eight general purpose registers.
#[derive(Clone, Copy, Debug, PartialEq, Eq, Structural)]
pub enum Register {
    R0,
    R1,
    R2,
    R3,
    R4,
    R5,
    R6,
    R7,
}

impl Register {
    /// The register's number, 0 to 7.
    pub open spec fn number(self) -> u16 {
        match self {
            Register::R0 => 0,
            Register::R1 => 1,
            Register::R2 => 2,
            Register::R3 => 3,
            Register::R4 => 4,
            Register::R5 => 5,
            Register::R6 => 6,
            Register::R7 => 7,
        }
    }

    /// Returns the register's number, 0 to 7.
    pub fn index(&self) -> (r: u16)
        ensures
            r == self.number(),
            r < 8,
    {
        match self {
            Register::R0 => 0,
            Register::R1 => 1,
            Register::R2 => 2,
            Register::R3 => 3,
            Register::R4 => 4,
            Register::R5 => 5,
            Register::R6 => 6,
            Register::R7 => 7,
        }
    }
}

/// A label name with a signed offset (0 when none is written).
#[derive(Clone, Debug, PartialEq, Eq)]
pub struct Label {
    pub name: String,
    pub offset: i16,
}

/// A memory address, given directly, relative to the program counter, or by label.
#[derive(Clone, Debug, PartialEq, Eq)]
pub enum MemoryLocation {
    Address(u16),
    /// An offset from the program counter; `PCOffset(0)` is the program counter itself.
    PCOffset(i16),
    Label(Label),
}

/// A register or a memory address.
#[derive(Clone, Debug, PartialEq, Eq)]
pub enum Location {
    Register(Register),
    Memory(MemoryLocation),
}

/// A location as plain values: a label's name as characters.
pub enum LocationView {
    Register(Register),
    Address(u16),
    PCOffset(i16),
    Label(Seq<char>, i16),
}

impl View for MemoryLocation {
    type V = LocationView;

    open spec fn view(&self) -> LocationView {
        match self {
            MemoryLocation::Address(a) => LocationView::Address(*a),
            MemoryLocation::PCOffset(o) => LocationView::PCOffset(*o),
            MemoryLocation::Label(l) => LocationView::Label(l.name@, l.offset),
        }
    }
}

impl View for Location {
    type V = LocationView;

    open spec fn view(&self) -> LocationView {
        match self {
            Location::Register(r) => LocationView::Register(*r),
            Location::Memory(m) => m@,
        }
    }
}

/// One argument of a command, typed by its syntax.
#[derive(Clone, Debug, PartialEq, Eq)]
pub enum Argument {
    Register(Register),
    Integer(i32),
    PCOffset(i16),
    Label(Label),
}

/// An argument as plain values: a label's name as characters.
pub enum ArgumentView {
    Register(Register),
    Integer(i32),
    PCOffset(i16),
    Label(Seq<char>, i16),
}

impl View for Argument {
    type V = ArgumentView;

    open spec fn view(&self) -> ArgumentView {
        match self {
            Argument::Register(r) => ArgumentView::Register(*r),
            Argument::Integer(n) => ArgumentView::Integer(*n),
            Argument::PCOffset(o) => ArgumentView::PCOffset(*o),
            Argument::Label(l) => ArgumentView::Label(l.name@, l.offset),
        }
    }
}

impl ArgumentView {
    /// The type of this argument.
    pub open spec fn kind(self) -> NaiveType {
        match self {
            ArgumentView::Register(_) => NaiveType::Register,
            ArgumentView::Integer(_) => NaiveType::Integer,
            ArgumentView::PCOffset(_) => NaiveType::PCOffset,
            ArgumentView::Label(..) => NaiveType::Label,
        }
    }
}

impl Argument {
    /// Returns the type of this argument.
    pub fn kind(&self) -> (r: NaiveType)
        ensures
            r == self@.kind(),
    {
        match self {
            Argument::Register(_) => NaiveType::Register,
            Argument::Integer(_) => NaiveType::Integer,
            Argument::PCOffset(_) => NaiveType::PCOffset,
            Argument::Label(_) => NaiveType::Label,
        }
    }
}

/// The name of a command, as resolved from its aliases.
#[derive(Clone, Copy, Debug, PartialEq, Eq, Structural)]
pub enum CommandName {
    Help,
    Continue,
    Finish,
    Exit,
    Quit,
    Registers,
    Reset,
    Step,
    Next,
    Get,
    SetValue,
    Jump,
    Source,
    Eval,
    BreakList,
    BreakAdd,
    BreakRemove,
}

/// A fully parsed command: every argument it needs was read.
#[derive(Clone, Debug, PartialEq, Eq)]
pub enum Command {
    Help,
    Continue,
    Finish,
    Exit,
    Quit,
    Registers,
    Reset,
    Step { count: u16 },
    Next,
    Get { location: Location },
    SetValue { location: Location, value: u16 },
    Jump { location: MemoryLocation },
    Source { location: MemoryLocation },
    Eval { instruction: String },
    BreakList,
    BreakAdd { location: MemoryLocation },
    BreakRemove { location: MemoryLocation },
}

/// A command as plain values.
pub enum CommandView {
    Help,
    Continue,
    Finish,
    Exit,
    Quit,
    Registers,
    Reset,
    Step { count: u16 },
    Next,
    Get { location: LocationView },
    SetValue { location: LocationView, value: u16 },
    Jump { location: LocationView },
    Source { location: LocationView },
    Eval { instruction: Seq<char> },
    BreakList,
    BreakAdd { location: LocationView },
    BreakRemove { location: LocationView },
}

impl View for Command {
    type V = CommandView;

    open spec fn view(&self) -> CommandView {
        match self {
            Command::Help => CommandView::Help,
            Command::Continue => CommandView::Continue,
            Command::Finish => CommandView::Finish,
            Command::Exit => CommandView::Exit,
            Command::Quit => CommandView::Quit,
            Command::Registers => CommandView::Registers,
            Command::Reset => CommandView::Reset,
            Command::Step { count } => CommandView::Step { count: *count },
            Command::Next => CommandView::Next,
            Command::Get { location } => CommandView::Get { location: location@ },
            Command::SetValue { location, value } => CommandView::SetValue { location: location@, value: *value },
            Command::Jump { location } => CommandView::Jump { location: location@ },
            Command::Source { location } => CommandView::Source { location: location@ },
            Command::Eval { instruction } => CommandView::Eval { instruction: instruction@ },
            Command::BreakList => CommandView::BreakList,
            Command::BreakAdd { location } => CommandView::BreakAdd { location: location@ },
            Command::BreakRemove { location } => CommandView::BreakRemove { location: location@ },
        }
    }
}

} // verus!
