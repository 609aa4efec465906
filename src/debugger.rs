//! Execution control: breakpoints, the debugger's run mode, and the decision
//! at every instruction boundary whether control goes back to the operator.

use vstd::prelude::*;

use crate::command::{Command, CommandView, Label, Location, LocationView, MemoryLocation, Register};
use crate::runtime::{wrap_add, with_mem, with_reg, MachineView, RunState, DEVICE_SPACE, HALT_ADDRESS};
use crate::symbol::{lookup, SymbolTable};

verus! {

/// How the debugger is set up.
#[derive(Clone, Debug)]
pub struct DebuggerOptions {
    /// Print less.
    pub minimal: bool,
    /// Commands to read instead of the terminal.
    pub command: Option<String>,
}

/// An address at which execution pauses. A predefined breakpoint was given
/// before the run rather than added by a command.
#[derive(Clone, Copy, Debug, PartialEq, Eq, Structural)]
pub struct Breakpoint {
    pub address: u16,
    pub predefined: bool,
}

/// The first breakpoint at `address`.
pub open spec fn first_at(bps: Seq<Breakpoint>, address: u16) -> Option<Breakpoint>
    decreases bps.len(),
{
    if bps.len() == 0 {
        None
    } else if bps[0].address == address {
        Some(bps[0])
    } else {
        first_at(bps.drop_first(), address)
    }
}

/// `bps` without the breakpoints at `address`, in the same order.
pub open spec fn without(bps: Seq<Breakpoint>, address: u16) -> Seq<Breakpoint>
    decreases bps.len(),
{
    if bps.len() == 0 {
        bps
    } else if bps.last().address == address {
        without(bps.drop_last(), address)
    } else {
        without(bps.drop_last(), address).push(bps.last())
    }
}

proof fn lemma_first_at_exists(bps: Seq<Breakpoint>, address: u16)
    ensures
        first_at(bps, address) is Some <==> exists|i: int| 0 <= i < bps.len() && (#[trigger] bps[i]).address == address,
    decreases bps.len(),
{
    if bps.len() > 0 {
        lemma_first_at_exists(bps.drop_first(), address);
        if first_at(bps.drop_first(), address) is Some {
            let i = choose|i: int| 0 <= i < bps.len() - 1 && (#[trigger] bps.drop_first()[i]).address == address;
            assert(bps[i + 1] == bps.drop_first()[i]);
        }
        assert forall|i: int| 0 < i < bps.len() && (#[trigger] bps[i]).address == address implies first_at(
            bps.drop_first(),
            address,
        ) is Some by {
            assert(bps.drop_first()[i - 1] == bps[i]);
        }
    }
}

proof fn lemma_without_len(bps: Seq<Breakpoint>, address: u16)
    ensures
        without(bps, address).len() == bps.len() <==> first_at(bps, address) is None,
        without(bps, address).len() <= bps.len(),
    decreases bps.len(),
{
    if bps.len() > 0 {
        lemma_without_len(bps.drop_last(), address);
        lemma_first_at_exists(bps, address);
        lemma_first_at_exists(bps.drop_last(), address);
        if first_at(bps.drop_last(), address) is Some {
            let i = choose|i: int| 0 <= i < bps.len() - 1 && (#[trigger] bps.drop_last()[i]).address == address;
            assert(bps[i] == bps.drop_last()[i]);
        }
        if first_at(bps, address) is Some && bps.last().address != address {
            let i = choose|i: int| 0 <= i < bps.len() && (#[trigger] bps[i]).address == address;
            assert(bps.drop_last()[i] == bps[i]);
        }
    }
}

proof fn lemma_without_absent(bps: Seq<Breakpoint>, address: u16)
    requires
        first_at(bps, address) is None,
    ensures
        without(bps, address) == bps,
    decreases bps.len(),
{
    if bps.len() > 0 {
        lemma_first_at_exists(bps, address);
        lemma_first_at_exists(bps.drop_last(), address);
        if first_at(bps.drop_last(), address) is Some {
            let i = choose|i: int| 0 <= i < bps.len() - 1 && (#[trigger] bps.drop_last()[i]).address == address;
            assert(bps[i] == bps.drop_last()[i]);
        }
        assert(bps[bps.len() - 1] == bps.last());
        lemma_without_absent(bps.drop_last(), address);
        assert(bps.drop_last().push(bps.last()) =~= bps);
    }
}

/// The breakpoints, in the order they were added. The type does not keep
/// addresses unique; the debugger avoids adding one twice.
#[derive(Debug)]
pub struct Breakpoints(Vec<Breakpoint>);

impl View for Breakpoints {
    type V = Seq<Breakpoint>;

    closed spec fn view(&self) -> Seq<Breakpoint> {
        self.0@
    }
}

impl Breakpoints {
    /// No breakpoints.
    pub fn new() -> (r: Breakpoints)
        ensures
            r@ == Seq::<Breakpoint>::empty(),
    {
        Breakpoints(Vec::new())
    }

    /// The first breakpoint at `address`.
    pub fn get(&self, address: u16) -> (r: Option<Breakpoint>)
        ensures
            r == first_at(self@, address),
    {
        let mut i: usize = 0;
        assert(self@.subrange(0, self@.len() as int) =~= self@);
        while i < self.0.len()
            invariant
                0 <= i <= self@.len(),
                first_at(self@, address) == first_at(self@.subrange(i as int, self@.len() as int), address),
            decreases self@.len() - i,
        {
            let ghost rest = self@.subrange(i as int, self@.len() as int);
            assert(rest.drop_first() =~= self@.subrange(i + 1, self@.len() as int));
            let breakpoint = self.0[i];
            if breakpoint.address == address {
                return Some(breakpoint);
            }
            i += 1;
        }
        None
    }

    /// Whether there is a breakpoint at `address`.
    pub fn contains(&self, address: u16) -> (r: bool)
        ensures
            r == first_at(self@, address) is Some,
    {
        self.get(address).is_some()
    }

    /// Add a breakpoint after the others.
    pub fn insert(&mut self, breakpoint: Breakpoint)
        ensures
            final(self)@ == old(self)@.push(breakpoint),
    {
        self.0.push(breakpoint);
    }

    /// Removes every breakpoint at `address`. Returns whether there was any.
    pub fn remove(&mut self, address: u16) -> (r: bool)
        ensures
            final(self)@ == without(old(self)@, address),
            r == first_at(old(self)@, address) is Some,
    {
        let ghost old_bps = self@;
        let mut kept: Vec<Breakpoint> = Vec::new();
        let mut i: usize = 0;
        while i < self.0.len()
            invariant
                self@ == old_bps,
                0 <= i <= old_bps.len(),
                kept@ == without(old_bps.subrange(0, i as int), address),
            decreases old_bps.len() - i,
        {
            let breakpoint = self.0[i];
            assert(old_bps.subrange(0, i + 1).drop_last() =~= old_bps.subrange(0, i as int));
            if breakpoint.address != address {
                kept.push(breakpoint);
            }
            i += 1;
        }
        assert(old_bps.subrange(0, old_bps.len() as int) =~= old_bps);
        let removed = kept.len() != self.0.len();
        proof {
            lemma_without_len(old_bps, address);
        }
        self.0 = kept;
        removed
    }

    /// How many breakpoints there are.
    pub fn len(&self) -> (r: usize)
        ensures
            r == self@.len(),
    {
        self.0.len()
    }

    /// Whether there are none.
    pub fn is_empty(&self) -> (r: bool)
        ensures
            r == (self@.len() == 0),
    {
        self.len() == 0
    }

    /// The addresses of the breakpoints, in order.
    pub fn addresses(&self) -> (r: Vec<u16>)
        ensures
            r@ == Seq::new(self@.len(), |i: int| self@[i].address),
    {
        let mut r: Vec<u16> = Vec::new();
        let mut i: usize = 0;
        while i < self.0.len()
            invariant
                0 <= i <= self@.len(),
                r@ == Seq::new(i as nat, |j: int| self@[j].address),
            decreases self@.len() - i,
        {
            r.push(self.0[i].address);
            i += 1;
            assert(r@ =~= Seq::new(i as nat, |j: int| self@[j].address));
        }
        r
    }
}

impl From<Vec<Breakpoint>> for Breakpoints {
    fn from(vec: Vec<Breakpoint>) -> (r: Self) {
        Breakpoints(vec)
    }
}

impl vstd::std_specs::convert::FromSpecImpl<Vec<Breakpoint>> for Breakpoints {
    open spec fn obeys_from_spec() -> bool {
        true
    }

    closed spec fn from_spec(vec: Vec<Breakpoint>) -> Breakpoints {
        Breakpoints(vec)
    }
}

/// The debugger's run mode.
#[derive(Clone, Copy, Debug, PartialEq, Eq, Structural)]
pub enum Status {
    /// Waiting for the operator's next command.
    WaitForAction,
    /// Running `count` more instructions after this one.
    Step { count: u16 },
    /// Running until the program counter reaches `return_addr`.
    Next { return_addr: u16 },
    /// Running until a breakpoint or a halt.
    Continue,
    /// Running until the current subroutine returns.
    Finish,
}

/// What the loop that runs the machine does next.
#[derive(Clone, Copy, Debug, PartialEq, Eq, Structural)]
pub enum Action {
    /// Execute the instruction.
    Proceed,
    /// End the debugging session; the program keeps what it did.
    StopDebugger,
    /// End the whole process.
    ExitProgram,
}

/// The two instructions that execution control watches for.
#[derive(Clone, Copy, Debug, PartialEq, Eq, Structural)]
pub enum RelevantInstr {
    /// Return from a subroutine: `RET`, which is `JMP R7`. Used by `finish`.
    Ret,
    /// `HALT`, which is `TRAP x25`. Used by `continue` and `finish`.
    TrapHalt,
}

/// Which watched instruction `instr` is, looking only at the bits that tell.
pub open spec fn relevant_instr(instr: u16) -> Option<RelevantInstr> {
    let opcode = instr >> 12;
    if opcode == 0xC && (instr >> 6) & 0b111 == 7 {
        Some(RelevantInstr::Ret)
    } else if opcode == 0xF && instr & 0xff == 0x25 {
        Some(RelevantInstr::TrapHalt)
    } else {
        None
    }
}

impl RelevantInstr {
    /// Classify an instruction word as `RET`, `HALT`, or neither.
    pub fn classify(instr: u16) -> (r: Option<RelevantInstr>)
        ensures
            r == relevant_instr(instr),
    {
        let opcode = instr >> 12;
        if opcode == 0xC && (instr >> 6) & 0b111 == 7 {
            Some(RelevantInstr::Ret)
        } else if opcode == 0xF && instr & 0xff == 0x25 {
            Some(RelevantInstr::TrapHalt)
        } else {
            None
        }
    }
}

impl TryFrom<u16> for RelevantInstr {
    type Error = ();

    fn try_from(instr: u16) -> (r: Result<Self, Self::Error>) {
        match RelevantInstr::classify(instr) {
            Some(relevant) => Ok(relevant),
            None => Err(()),
        }
    }
}

impl vstd::std_specs::convert::TryFromSpecImpl<u16> for RelevantInstr {
    open spec fn obeys_try_from_spec() -> bool {
        true
    }

    open spec fn try_from_spec(instr: u16) -> Result<Self, Self::Error> {
        match relevant_instr(instr) {
            Some(relevant) => Ok(relevant),
            None => Err(()),
        }
    }
}

/// What the operator is told at an instruction boundary.
#[derive(Clone, Copy, Debug, PartialEq, Eq, Structural)]
pub enum Notice {
    Nothing,
    /// The program counter is in the device address space (and not halted).
    DeviceSpace,
    /// A breakpoint was reached.
    Breakpoint { predefined: bool },
    /// A `HALT` was reached.
    Halt,
    /// The subroutine that `next` or `finish` ran through has returned.
    SubroutineEnd,
}

/// The decision at an instruction boundary.
#[derive(Clone, Copy, Debug, PartialEq, Eq, Structural)]
pub struct Boundary {
    pub notice: Notice,
    /// Whether control goes to the operator (`true`), or the instruction runs.
    pub prompt: bool,
    /// What the instruction at the boundary is, as far as execution control cares.
    pub instr: Option<RelevantInstr>,
}

/// The state of execution control, as plain values.
pub struct Control {
    pub status: Status,
    pub breakpoints: Seq<Breakpoint>,
    /// The breakpoint at which the previous boundary check paused, if it did.
    pub current_breakpoint: Option<u16>,
    /// Instructions run since control last went to the operator.
    pub instruction_count: u32,
    /// Whether the program counter may have jumped since it was last shown.
    pub was_pc_changed: bool,
}

/// Whether `pc` is where the debugger does not intercept: the device address
/// space, except the address that a halt leaves in the program counter.
pub open spec fn unwatched(pc: u16) -> bool {
    DEVICE_SPACE <= pc < HALT_ADDRESS
}

/// Breakpoint and halt check at `pc`. A breakpoint pauses, unless the
/// previous check paused at the same address; otherwise the marker of the
/// last pause is cleared, and a `HALT` pauses.
pub open spec fn check_spec(c: Control, pc: u16, instr: Option<RelevantInstr>) -> (Control, Notice) {
    match first_at(c.breakpoints, pc) {
        Some(bp) if c.current_breakpoint != Some(pc) => (
            Control { status: Status::WaitForAction, current_breakpoint: Some(pc), ..c },
            Notice::Breakpoint { predefined: bp.predefined },
        ),
        _ => if instr == Some(RelevantInstr::TrapHalt) {
            (Control { status: Status::WaitForAction, current_breakpoint: None, ..c }, Notice::Halt)
        } else {
            (Control { current_breakpoint: None, ..c }, Notice::Nothing)
        },
    }
}

/// The run mode's decision at `pc` (after the breakpoint and halt check).
pub open spec fn dispatch_spec(c: Control, pc: u16, instr: Option<RelevantInstr>, notice: Notice) -> (Control, Boundary) {
    let proceed = Boundary { notice, prompt: false, instr };
    match c.status {
        Status::WaitForAction => (c, Boundary { notice, prompt: true, instr }),
        Status::Step { count } => if count > 0 {
            (Control { status: Status::Step { count: (count - 1) as u16 }, ..c }, proceed)
        } else {
            // This instruction still runs before the operator is asked
            (Control { status: Status::WaitForAction, ..c }, proceed)
        },
        Status::Next { return_addr } => if pc == return_addr {
            let notice = if c.instruction_count > 1 {
                Notice::SubroutineEnd
            } else {
                notice
            };
            (Control { status: Status::WaitForAction, ..c }, Boundary { notice, prompt: true, instr })
        } else {
            (c, proceed)
        },
        Status::Continue => (c, proceed),
        Status::Finish => if instr == Some(RelevantInstr::Ret) {
            // The `RET` runs; the operator is asked at the next boundary
            (Control { status: Status::WaitForAction, ..c }, Boundary { notice: Notice::SubroutineEnd, prompt: false, instr })
        } else {
            (c, proceed)
        },
    }
}

/// The whole check at an instruction boundary, before the instruction at
/// `pc` (the word `word`) runs.
pub open spec fn boundary_spec(c: Control, pc: u16, word: u16) -> (Control, Boundary) {
    if unwatched(pc) {
        (c, Boundary { notice: Notice::DeviceSpace, prompt: false, instr: None })
    } else {
        let instr = relevant_instr(word);
        let (c1, notice) = check_spec(c, pc, instr);
        dispatch_spec(c1, pc, instr, notice)
    }
}

/// Why a memory location could not be resolved to an address.
#[derive(Clone, Copy, Debug, PartialEq, Eq, Structural)]
pub enum ResolveError {
    /// No label of that name is recorded.
    LabelNotFound,
    /// The label's address, with its offset, lies outside the program's space.
    OutOfBounds,
    /// A register is no memory location. A [`MemoryLocation`] never names
    /// one, so resolving one never gives this.
    NotMemory,
}

/// The address of a memory location. A label's raw value is adjusted by -1
/// (the program counter is incremented before an instruction that names a
/// label runs), then its offset and the origin are added; the result must lie
/// in `orig..0xFE00`.
pub open spec fn resolve_spec(
    loc: LocationView,
    pc: u16,
    orig: u16,
    symbols: Seq<(Seq<char>, u16)>,
) -> Result<u16, ResolveError> {
    match loc {
        LocationView::Address(a) => Ok(a),
        LocationView::PCOffset(offset) => Ok(wrap_add(pc, offset as u16)),
        LocationView::Label(name, offset) => match lookup(symbols, name) {
            None => Err(ResolveError::LabelNotFound),
            Some(raw) => {
                let address = raw - 1 + offset + orig;
                if orig <= address < DEVICE_SPACE {
                    Ok(address as u16)
                } else {
                    Err(ResolveError::OutOfBounds)
                }
            },
        },
        LocationView::Register(_) => Err(ResolveError::NotMemory),
    }
}

/// What a command did, for the operator.
#[derive(Clone, Copy, Debug, PartialEq, Eq, Structural)]
pub enum Outcome {
    /// The session or the program ends.
    Stop(Action),
    Help,
    Continuing,
    Finishing,
    Stepping,
    SteppingOver,
    RegisterValue { register: Register, value: u16 },
    MemoryValue { address: u16, value: u16 },
    RegisterSet { register: Register },
    MemorySet { address: u16 },
    Registers,
    Reset,
    /// The command is reserved and not available.
    NotImplemented,
    /// An instruction to evaluate; the assembler that evaluates it lies outside this library.
    Eval,
    BreakpointAdded { address: u16 },
    BreakpointExists { address: u16 },
    BreakpointRemoved { address: u16 },
    NoBreakpoint { address: u16 },
    BreakpointList,
    /// The command's location could not be resolved; nothing was done.
    Unresolved(ResolveError),
}

/// The effect of a command: execution control, machine and outcome after it.
/// `initial` is the machine as it was loaded; `orig` its origin.
pub open spec fn command_spec(
    c: Control,
    m: MachineView,
    initial: MachineView,
    symbols: Seq<(Seq<char>, u16)>,
    command: CommandView,
) -> (Control, MachineView, Outcome) {
    let moved = Control { was_pc_changed: true, ..c };
    let resolve = |loc: LocationView| resolve_spec(loc, m.pc, initial.pc, symbols);
    match command {
        CommandView::Quit => (c, m, Outcome::Stop(Action::StopDebugger)),
        CommandView::Exit => (c, m, Outcome::Stop(Action::ExitProgram)),
        CommandView::Help => (c, m, Outcome::Help),
        CommandView::Continue => (Control { status: Status::Continue, ..moved }, m, Outcome::Continuing),
        CommandView::Finish => (Control { status: Status::Finish, ..moved }, m, Outcome::Finishing),
        CommandView::Step { count } => (
            Control { status: Status::Step { count: if count > 0 { (count - 1) as u16 } else { 0 } }, ..moved },
            m,
            Outcome::Stepping,
        ),
        CommandView::Next => (
            Control { status: Status::Next { return_addr: wrap_add(m.pc, 1) }, ..moved },
            m,
            Outcome::SteppingOver,
        ),
        CommandView::Get { location } => match location {
            LocationView::Register(r) => (c, m, Outcome::RegisterValue { register: r, value: m.reg[r.number() as int] }),
            _ => match resolve(location) {
                Ok(a) => (c, m, Outcome::MemoryValue { address: a, value: m.mem[a as int] }),
                Err(e) => (c, m, Outcome::Unresolved(e)),
            },
        },
        CommandView::SetValue { location, value } => match location {
            LocationView::Register(r) => (c, with_reg(m, r.number() as int, value), Outcome::RegisterSet { register: r }),
            _ => match resolve(location) {
                Ok(a) => (c, with_mem(m, a, value), Outcome::MemorySet { address: a }),
                Err(e) => (c, m, Outcome::Unresolved(e)),
            },
        },
        CommandView::Registers => (c, m, Outcome::Registers),
        CommandView::Reset => (moved, initial, Outcome::Reset),
        CommandView::Jump { .. } => (c, m, Outcome::NotImplemented),
        CommandView::Source { .. } => (c, m, Outcome::NotImplemented),
        CommandView::Eval { .. } => (moved, m, Outcome::Eval),
        CommandView::BreakAdd { location } => match resolve(location) {
            Ok(a) => if first_at(c.breakpoints, a) is Some {
                (c, m, Outcome::BreakpointExists { address: a })
            } else {
                (
                    Control { breakpoints: c.breakpoints.push(Breakpoint { address: a, predefined: false }), ..c },
                    m,
                    Outcome::BreakpointAdded { address: a },
                )
            },
            Err(e) => (c, m, Outcome::Unresolved(e)),
        },
        CommandView::BreakRemove { location } => match resolve(location) {
            Ok(a) => if first_at(c.breakpoints, a) is Some {
                (Control { breakpoints: without(c.breakpoints, a), ..c }, m, Outcome::BreakpointRemoved { address: a })
            } else {
                (c, m, Outcome::NoBreakpoint { address: a })
            },
            Err(e) => (c, m, Outcome::Unresolved(e)),
        },
        CommandView::BreakList => (c, m, Outcome::BreakpointList),
    }
}

/// What the operator is shown before being asked for a command.
#[derive(Clone, Copy, Debug, PartialEq, Eq, Structural)]
pub struct Progress {
    /// The program counter, if it may have jumped since it was last shown.
    pub pc_changed: bool,
    /// Instructions run since control last went to the operator.
    pub executed: u32,
}

/// The interactive debugger: run mode, breakpoints, and the machine as it was
/// loaded, for `reset`.
pub struct Debugger {
    status: Status,
    minimal: bool,
    instruction_count: u32,
    // Whether the program counter may have jumped (not that it did)
    was_pc_changed: bool,
    initial_state: RunState,
    breakpoints: Breakpoints,
    current_breakpoint: Option<u16>,
    symbols: SymbolTable,
}

impl View for Debugger {
    type V = Control;

    closed spec fn view(&self) -> Control {
        Control {
            status: self.status,
            breakpoints: self.breakpoints@,
            current_breakpoint: self.current_breakpoint,
            instruction_count: self.instruction_count,
            was_pc_changed: self.was_pc_changed,
        }
    }
}

impl Debugger {
    /// The machine as it was loaded.
    pub closed spec fn initial(&self) -> MachineView {
        self.initial_state@
    }

    /// The symbol table that labels are resolved in.
    pub closed spec fn symbols(&self) -> Seq<(Seq<char>, u16)> {
        self.symbols@
    }

    /// The loaded machine can be copied back, and each label has one entry.
    pub closed spec fn wf(&self) -> bool {
        self.initial_state.wf() && self.symbols.wf()
    }

    /// A debugger that waits for a command at the first boundary, with the
    /// machine as loaded and the given breakpoints and symbols.
    pub fn new(opts: DebuggerOptions, initial_state: RunState, breakpoints: Vec<Breakpoint>, symbols: SymbolTable) -> (r: Self)
        requires
            initial_state.wf(),
            symbols.wf(),
        ensures
            r.wf(),
            r@ == (Control {
                status: Status::WaitForAction,
                breakpoints: breakpoints@,
                current_breakpoint: None,
                instruction_count: 0,
                was_pc_changed: false,
            }),
            r.initial() == initial_state@,
            r.symbols() == symbols@,
            r.is_minimal() == opts.minimal,
    {
        Debugger {
            status: Status::WaitForAction,
            minimal: opts.minimal,
            instruction_count: 0,
            was_pc_changed: false,
            initial_state,
            breakpoints: Breakpoints(breakpoints),
            current_breakpoint: None,
            symbols,
        }
    }

    /// Whether output is kept short.
    pub closed spec fn is_minimal(&self) -> bool {
        self.minimal
    }

    /// Returns whether output is kept short.
    pub fn minimal(&self) -> (r: bool)
        ensures
            r == self.is_minimal(),
    {
        self.minimal
    }

    /// The breakpoints.
    pub fn breakpoints(&self) -> (r: &Breakpoints)
        ensures
            r@ == self@.breakpoints,
    {
        &self.breakpoints
    }

    /// The run mode.
    pub fn status(&self) -> (r: Status)
        ensures
            r == self@.status,
    {
        self.status
    }

    /// Count one more instruction run.
    pub fn count_instruction(&mut self)
        ensures
            final(self)@ == (Control {
                instruction_count: if old(self)@.instruction_count < u32::MAX {
                    (old(self)@.instruction_count + 1) as u32
                } else {
                    old(self)@.instruction_count
                },
                ..old(self)@
            }),
            final(self).initial() == old(self).initial(),
            final(self).symbols() == old(self).symbols(),
            final(self).wf() == old(self).wf(),
            final(self).is_minimal() == old(self).is_minimal(),
    {
        if self.instruction_count < u32::MAX {
            self.instruction_count = self.instruction_count + 1;
        }
    }

    /// The check at an instruction boundary, before the instruction at the
    /// program counter runs: device space is let through; breakpoints (once
    /// each, until the program counter moves away) and `HALT` pause; then the
    /// run mode decides. When `prompt` comes back, the operator gives
    /// commands, each handed to [`Debugger::next_action`], and
    /// [`Debugger::wait_for_single_action`] decides again after each.
    pub fn wait_for_action(&mut self, state: &RunState) -> (r: Boundary)
        requires
            state.wf(),
        ensures
            (final(self)@, r) == boundary_spec(old(self)@, state@.pc, state@.mem[state@.pc as int]),
            final(self).initial() == old(self).initial(),
            final(self).symbols() == old(self).symbols(),
            final(self).wf() == old(self).wf(),
            final(self).is_minimal() == old(self).is_minimal(),
    {
        let pc = state.pc();
        // 0xFFFF is where a HALT leaves the program counter: no warning for it
        if pc >= DEVICE_SPACE && pc < HALT_ADDRESS {
            return Boundary { notice: Notice::DeviceSpace, prompt: false, instr: None };
        }
        let instr = RelevantInstr::classify(state.mem(pc));
        // A pause on the same breakpoint at the previous check does not repeat
        let notice = match self.breakpoints.get(pc) {
            Some(breakpoint) if self.current_breakpoint != Some(pc) => {
                self.current_breakpoint = Some(pc);
                self.status = Status::WaitForAction;
                Notice::Breakpoint { predefined: breakpoint.predefined }
            },
            _ => {
                self.current_breakpoint = None;
                if instr == Some(RelevantInstr::TrapHalt) {
                    self.status = Status::WaitForAction;
                    Notice::Halt
                } else {
                    Notice::Nothing
                }
            },
        };
        self.wait_for_single_action(state, instr, notice)
    }

    /// The run mode's decision at the boundary where the program counter
    /// stands, once the breakpoint and halt check was made.
    pub fn wait_for_single_action(&mut self, state: &RunState, instr: Option<RelevantInstr>, notice: Notice) -> (r: Boundary)
        ensures
            (final(self)@, r) == dispatch_spec(old(self)@, state@.pc, instr, notice),
            final(self).initial() == old(self).initial(),
            final(self).symbols() == old(self).symbols(),
            final(self).wf() == old(self).wf(),
            final(self).is_minimal() == old(self).is_minimal(),
    {
        let proceed = Boundary { notice, prompt: false, instr };
        match self.status {
            Status::WaitForAction => Boundary { notice, prompt: true, instr },
            Status::Step { count } => {
                if count > 0 {
                    self.status = Status::Step { count: count - 1 };
                } else {
                    self.status = Status::WaitForAction;
                }
                proceed
            },
            Status::Next { return_addr } => {
                if state.pc() == return_addr {
                    // More than one instruction means a subroutine ran, not a single instruction
                    let notice = if self.instruction_count > 1 {
                        Notice::SubroutineEnd
                    } else {
                        notice
                    };
                    self.status = Status::WaitForAction;
                    return Boundary { notice, prompt: true, instr };
                }
                proceed
            },
            Status::Continue => proceed,
            Status::Finish => {
                if instr == Some(RelevantInstr::Ret) {
                    // Run the `RET`, then ask for a command at the next boundary
                    self.status = Status::WaitForAction;
                    return Boundary { notice: Notice::SubroutineEnd, prompt: false, instr };
                }
                proceed
            },
        }
    }

    /// What to show before asking for a command; both are then reset.
    pub fn take_progress(&mut self) -> (r: Progress)
        ensures
            r == (Progress { pc_changed: old(self)@.was_pc_changed, executed: old(self)@.instruction_count }),
            final(self)@ == (Control { was_pc_changed: false, instruction_count: 0, ..old(self)@ }),
            final(self).initial() == old(self).initial(),
            final(self).symbols() == old(self).symbols(),
            final(self).wf() == old(self).wf(),
            final(self).is_minimal() == old(self).is_minimal(),
    {
        let r = Progress { pc_changed: self.was_pc_changed, executed: self.instruction_count };
        self.was_pc_changed = false;
        self.instruction_count = 0;
        r
    }

    /// Execute one command of the operator. `quit` and `exit` end with an
    /// [`Action`]; the others change the run mode, the breakpoints or the
    /// machine, or only report.
    pub fn next_action(&mut self, state: &mut RunState, command: Command) -> (r: Outcome)
        requires
            old(self).wf(),
            old(state).wf(),
        ensures
            (final(self)@, final(state)@, r) == command_spec(
                old(self)@,
                old(state)@,
                old(self).initial(),
                old(self).symbols(),
                command@,
            ),
            final(state).wf(),
            final(self).initial() == old(self).initial(),
            final(self).symbols() == old(self).symbols(),
            final(self).wf(),
            final(self).is_minimal() == old(self).is_minimal(),
    {
        match command {
            Command::Quit => Outcome::Stop(Action::StopDebugger),
            Command::Exit => Outcome::Stop(Action::ExitProgram),
            Command::Help => Outcome::Help,
            Command::Continue => {
                self.status = Status::Continue;
                self.was_pc_changed = true;
                Outcome::Continuing
            },
            Command::Finish => {
                self.status = Status::Finish;
                self.was_pc_changed = true;
                Outcome::Finishing
            },
            Command::Step { count } => {
                self.status = Status::Step { count: if count > 0 { count - 1 } else { 0 } };
                self.was_pc_changed = true;
                Outcome::Stepping
            },
            Command::Next => {
                self.status = Status::Next { return_addr: state.pc().wrapping_add(1) };
                self.was_pc_changed = true;
                Outcome::SteppingOver
            },
            Command::Get { location } => match location {
                Location::Register(register) => Outcome::RegisterValue {
                    register,
                    value: state.reg(register.index()),
                },
                Location::Memory(location) => match self.resolve_location_address(state, &location) {
                    Ok(address) => Outcome::MemoryValue { address, value: state.mem(address) },
                    Err(e) => Outcome::Unresolved(e),
                },
            },
            Command::SetValue { location, value } => match location {
                Location::Register(register) => {
                    state.set_reg(register.index(), value);
                    Outcome::RegisterSet { register }
                },
                Location::Memory(location) => match self.resolve_location_address(state, &location) {
                    Ok(address) => {
                        state.set_mem(address, value);
                        Outcome::MemorySet { address }
                    },
                    Err(e) => Outcome::Unresolved(e),
                },
            },
            Command::Registers => Outcome::Registers,
            Command::Reset => {
                *state = self.initial_state.duplicate();
                self.was_pc_changed = true;
                Outcome::Reset
            },
            Command::Jump { .. } => Outcome::NotImplemented,
            Command::Source { .. } => Outcome::NotImplemented,
            Command::Eval { .. } => {
                self.was_pc_changed = true;
                Outcome::Eval
            },
            Command::BreakAdd { location } => match self.resolve_location_address(state, &location) {
                Ok(address) => {
                    if self.breakpoints.contains(address) {
                        Outcome::BreakpointExists { address }
                    } else {
                        self.breakpoints.insert(Breakpoint { address, predefined: false });
                        Outcome::BreakpointAdded { address }
                    }
                },
                Err(e) => Outcome::Unresolved(e),
            },
            Command::BreakRemove { location } => match self.resolve_location_address(state, &location) {
                Ok(address) => {
                    let removed = self.breakpoints.remove(address);
                    proof {
                        if !removed {
                            lemma_without_absent(old(self)@.breakpoints, address);
                        }
                    }
                    if removed {
                        Outcome::BreakpointRemoved { address }
                    } else {
                        Outcome::NoBreakpoint { address }
                    }
                },
                Err(e) => Outcome::Unresolved(e),
            },
            Command::BreakList => Outcome::BreakpointList,
        }
    }

    /// The address of a memory location: given directly, relative to the
    /// program counter, or by label.
    pub fn resolve_location_address(&self, state: &RunState, location: &MemoryLocation) -> (r: Result<u16, ResolveError>)
        requires
            self.wf(),
        ensures
            r == resolve_spec(location@, state@.pc, self.initial().pc, self.symbols()),
    {
        match location {
            MemoryLocation::Address(address) => Ok(*address),
            MemoryLocation::PCOffset(offset) => Ok(state.pc().wrapping_add(*offset as u16)),
            MemoryLocation::Label(label) => self.resolve_label_address(label),
        }
    }

    /// The address of a label with its offset, checked to lie in the program's space.
    pub fn resolve_label_address(&self, label: &Label) -> (r: Result<u16, ResolveError>)
        requires
            self.wf(),
        ensures
            r == resolve_spec(LocationView::Label(label.name@, label.offset), 0, self.initial().pc, self.symbols()),
    {
        let Some(raw) = get_label_address(&self.symbols, &label.name) else {
            return Err(ResolveError::LabelNotFound);
        };
        let orig = self.orig();
        // In `i32`, so that no sum overflows
        let address = raw as i32 + label.offset as i32 + orig as i32;
        if address < orig as i32 || address >= DEVICE_SPACE as i32 {
            return Err(ResolveError::OutOfBounds);
        }
        Ok(address as u16)
    }

    /// The origin: where the loaded program starts.
    pub fn orig(&self) -> (r: u16)
        requires
            self.wf(),
        ensures
            r == self.initial().pc,
    {
        self.initial_state.pc()
    }
}

/// The raw value of `name`, less one: the program counter is incremented
/// before an instruction that names a label runs.
pub fn get_label_address(symbols: &SymbolTable, name: &String) -> (r: Option<i32>)
    ensures
        r == match lookup(symbols@, name@) {
            Some(raw) => Some((raw - 1) as i32),
            None => None::<i32>,
        },
{
    match symbols.get(name) {
        Some(raw) => Some(raw as i32 - 1),
        None => None,
    }
}

/// Whether a boundary at `pc` with the word `word` passes the breakpoint and
/// halt check without pausing.
pub open spec fn quiet(c: Control, pc: u16, word: u16) -> bool {
    &&& first_at(c.breakpoints, pc) is None || c.current_breakpoint == Some(pc)
    &&& relevant_instr(word) != Some(RelevantInstr::TrapHalt)
}

/// Breakpoints pause once: stepping onto a breakpoint at `a` pauses there;
/// checking the boundary at `a` again, whatever run mode the operator chose
/// meanwhile, does not pause for it again; moving to another address `b` and
/// coming back to `a` pauses again.
pub proof fn lemma_breakpoint_debounce(c: Control, a: u16, b: u16, word: u16, other: u16, s1: Status, s2: Status)
    requires
        first_at(c.breakpoints, a) is Some,
        c.current_breakpoint != Some(a),
        !unwatched(a),
        !unwatched(b),
        b != a,
    ensures
        ({
            let (c1, r1) = boundary_spec(c, a, word);
            let (_, r2) = boundary_spec(Control { status: s1, ..c1 }, a, word);
            let (c3, _) = boundary_spec(Control { status: s1, ..c1 }, b, other);
            let (_, r4) = boundary_spec(Control { status: s2, ..c3 }, a, word);
            &&& r1.notice is Breakpoint && r1.prompt && c1.current_breakpoint == Some(a)
            &&& r2.notice !is Breakpoint
            &&& r4.notice is Breakpoint && r4.prompt
        }),
{
}

/// `next` at address `p` sets the return threshold to `p + 1`. In that mode,
/// a boundary that no breakpoint or halt pauses lets the instruction run and
/// keeps the mode, wherever the program counter is (inside a subroutine
/// too), until it equals the threshold; there control returns to the
/// operator, once: the mode goes back to waiting.
pub proof fn lemma_next_over_call(
    c: Control,
    m: MachineView,
    initial: MachineView,
    symbols: Seq<(Seq<char>, u16)>,
    d: Control,
    q: u16,
    word: u16,
)
    requires
        d.status == (Status::Next { return_addr: wrap_add(m.pc, 1) }),
        !unwatched(q),
        quiet(d, q, word),
    ensures
        command_spec(c, m, initial, symbols, CommandView::Next).0.status == (Status::Next {
            return_addr: wrap_add(m.pc, 1),
        }),
        q != wrap_add(m.pc, 1) ==> !boundary_spec(d, q, word).1.prompt && boundary_spec(d, q, word).0.status
            == d.status,
        q == wrap_add(m.pc, 1) ==> boundary_spec(d, q, word).1.prompt && boundary_spec(d, q, word).0.status
            == Status::WaitForAction,
{
}

/// `finish` runs on through every boundary that no breakpoint or halt
/// pauses, until the instruction at the boundary is a `RET`. Exactly one more
/// instruction then runs, the `RET` itself: at the next boundary, wherever it
/// returned to, control goes back to the operator.
pub proof fn lemma_finish(d: Control, q: u16, word: u16, q2: u16, word2: u16)
    requires
        d.status == Status::Finish,
        !unwatched(q),
        quiet(d, q, word),
    ensures
        relevant_instr(word) != Some(RelevantInstr::Ret) ==> !boundary_spec(d, q, word).1.prompt
            && boundary_spec(d, q, word).0.status == Status::Finish,
        relevant_instr(word) == Some(RelevantInstr::Ret) ==> ({
            let (d1, r1) = boundary_spec(d, q, word);
            let (_, r2) = boundary_spec(d1, q2, word2);
            &&& !r1.prompt && r1.notice == Notice::SubroutineEnd
            &&& d1.status == Status::WaitForAction
            &&& !unwatched(q2) ==> r2.prompt
        }),
{
}

} // verus!
