//! The table of trap routines, indexed by trap vector.

use vstd::prelude::*;

use crate::runtime::{with_pc, with_reg, RunState, HALT_ADDRESS, MEMORY_MAX};

verus! {

/// The trap routines that the machine provides.
#[derive(Clone, Copy, Debug, PartialEq, Eq, Structural)]
pub enum TrapRoutine {
    /// Read one character into R0.
    Getc,
    /// Write the character in R0.
    Out,
    /// Write the string of one character per word that starts at R0.
    Puts,
    /// Prompt for, read and echo one character into R0.
    In,
    /// Write the string of two characters per word that starts at R0.
    Putsp,
    /// Stop the program.
    Halt,
    /// Write R0 as a number.
    Putn,
    /// Write all registers.
    Reg,
}

/// The number of trap vectors.
pub const TRAP_VECTORS: usize = 0x100;

/// The routines registered at the standard vectors: 0x20 to 0x27.
pub open spec fn standard_traps() -> Seq<Option<TrapRoutine>> {
    Seq::new(
        TRAP_VECTORS as nat,
        |i: int|
            if i == 0x20 {
                Some(TrapRoutine::Getc)
            } else if i == 0x21 {
                Some(TrapRoutine::Out)
            } else if i == 0x22 {
                Some(TrapRoutine::Puts)
            } else if i == 0x23 {
                Some(TrapRoutine::In)
            } else if i == 0x24 {
                Some(TrapRoutine::Putsp)
            } else if i == 0x25 {
                Some(TrapRoutine::Halt)
            } else if i == 0x26 {
                Some(TrapRoutine::Putn)
            } else if i == 0x27 {
                Some(TrapRoutine::Reg)
            } else {
                None
            },
    )
}

/// A routine for each trap vector that has one.
pub struct Traps {
    array: Vec<Option<TrapRoutine>>,
}

impl View for Traps {
    type V = Seq<Option<TrapRoutine>>;

    closed spec fn view(&self) -> Seq<Option<TrapRoutine>> {
        self.array@
    }
}

impl Traps {
    /// An entry for every trap vector.
    pub open spec fn wf(&self) -> bool {
        self@.len() == TRAP_VECTORS
    }

    /// A table with no routine registered.
    pub fn empty() -> (r: Traps)
        ensures
            r@ == Seq::new(TRAP_VECTORS as nat, |i: int| None::<TrapRoutine>),
            r.wf(),
    {
        let mut array: Vec<Option<TrapRoutine>> = Vec::new();
        let mut i: usize = 0;
        while i < TRAP_VECTORS
            invariant
                i <= TRAP_VECTORS,
                array@ == Seq::new(i as nat, |j: int| None::<TrapRoutine>),
            decreases TRAP_VECTORS - i,
        {
            array.push(None);
            i += 1;
            assert(array@ =~= Seq::new(i as nat, |j: int| None::<TrapRoutine>));
        }
        Traps { array }
    }

    /// Register `func` under the vector `index`, which must be free.
    pub fn register(&mut self, index: u16, func: TrapRoutine)
        requires
            old(self).wf(),
            index < TRAP_VECTORS,
            old(self)@[index as int] is None,
        ensures
            final(self).wf(),
            final(self)@ == old(self)@.update(index as int, Some(func)),
    {
        self.array.set(index as usize, Some(func));
    }

    /// The routine under the vector `index`, if one is registered.
    pub fn get(&self, index: u16) -> (r: Option<TrapRoutine>)
        requires
            self.wf(),
            index < TRAP_VECTORS,
        ensures
            r == self@[index as int],
    {
        self.array[index as usize]
    }

    /// A copy of this table.
    pub fn duplicate(&self) -> (r: Traps)
        requires
            self.wf(),
        ensures
            r@ == self@,
            r.wf(),
    {
        let array = self.array.clone();
        assert(array@ =~= self.array@);
        Traps { array }
    }
}

impl Default for Traps {
    fn default() -> (r: Traps)
        ensures
            r@ == standard_traps(),
            r.wf(),
    {
        let mut traps = Traps::empty();
        traps.register(0x20, TrapRoutine::Getc);
        traps.register(0x21, TrapRoutine::Out);
        traps.register(0x22, TrapRoutine::Puts);
        traps.register(0x23, TrapRoutine::In);
        traps.register(0x24, TrapRoutine::Putsp);
        traps.register(0x25, TrapRoutine::Halt);
        traps.register(0x26, TrapRoutine::Putn);
        traps.register(0x27, TrapRoutine::Reg);
        assert(traps@ =~= standard_traps());
        traps
    }
}

/// `GETC` (and `IN`): the character read is placed in R0.
pub fn trap_getc(state: &mut RunState, input: u8)
    requires
        old(state).wf(),
    ensures
        final(state).wf(),
        final(state)@ == with_reg(old(state)@, 0, input as u16),
        final(state).trap_table() == old(state).trap_table(),
{
    state.set_reg(0, input as u16);
}

/// `OUT`: the character to write, the low byte of R0.
pub fn trap_out(state: &RunState) -> (r: u8)
    requires
        state.wf(),
    ensures
        r == (state@.reg[0] & 0xff) as u8,
{
    (state.reg(0) & 0xff) as u8
}

/// The string of one character per word (its low byte) from `addr` up to a
/// zero character or the end of memory.
pub open spec fn puts_text(mem: Seq<u16>, addr: int) -> Seq<u8>
    decreases MEMORY_MAX - addr,
{
    if addr < 0 || addr >= MEMORY_MAX || (mem[addr] & 0xff) as u8 == 0 {
        Seq::empty()
    } else {
        seq![(mem[addr] & 0xff) as u8] + puts_text(mem, addr + 1)
    }
}

/// `PUTS`: the string to write, one character per word from R0.
pub fn trap_puts(state: &RunState) -> (r: Vec<u8>)
    requires
        state.wf(),
    ensures
        r@ == puts_text(state@.mem, state@.reg[0] as int),
{
    let mut out: Vec<u8> = Vec::new();
    let mut addr: usize = state.reg(0) as usize;
    while addr < MEMORY_MAX
        invariant
            state.wf(),
            addr <= MEMORY_MAX,
            out@ + puts_text(state@.mem, addr as int) == puts_text(state@.mem, state@.reg[0] as int),
        decreases MEMORY_MAX - addr,
    {
        let ch = (state.mem(addr as u16) & 0xff) as u8;
        if ch == 0 {
            return out;
        }
        let ghost before = out@;
        out.push(ch);
        assert(before + puts_text(state@.mem, addr as int) =~= out@ + puts_text(state@.mem, addr + 1));
        addr += 1;
    }
    assert(out@ + puts_text(state@.mem, addr as int) =~= out@);
    out
}

/// The string of two characters per word (high byte first) from `addr` up
/// to a zero character or the end of memory.
pub open spec fn putsp_text(mem: Seq<u16>, addr: int) -> Seq<u8>
    decreases MEMORY_MAX - addr,
{
    if addr < 0 || addr >= MEMORY_MAX {
        Seq::empty()
    } else {
        let high = (mem[addr] >> 8) as u8;
        let low = (mem[addr] & 0xff) as u8;
        if high == 0 {
            Seq::empty()
        } else if low == 0 {
            seq![high]
        } else {
            seq![high, low] + putsp_text(mem, addr + 1)
        }
    }
}

/// `PUTSP`: the string to write, two characters per word from R0.
pub fn trap_putsp(state: &RunState) -> (r: Vec<u8>)
    requires
        state.wf(),
    ensures
        r@ == putsp_text(state@.mem, state@.reg[0] as int),
{
    let mut out: Vec<u8> = Vec::new();
    let mut addr: usize = state.reg(0) as usize;
    while addr < MEMORY_MAX
        invariant
            state.wf(),
            addr <= MEMORY_MAX,
            out@ + putsp_text(state@.mem, addr as int) == putsp_text(state@.mem, state@.reg[0] as int),
        decreases MEMORY_MAX - addr,
    {
        let word = state.mem(addr as u16);
        let high = (word >> 8) as u8;
        let low = (word & 0xff) as u8;
        if high == 0 {
            assert(out@ + putsp_text(state@.mem, addr as int) =~= out@);
            return out;
        }
        let ghost before = out@;
        out.push(high);
        if low == 0 {
            assert(before + putsp_text(state@.mem, addr as int) =~= out@);
            return out;
        }
        out.push(low);
        assert(before + putsp_text(state@.mem, addr as int) =~= out@ + putsp_text(state@.mem, addr + 1));
        addr += 1;
    }
    assert(out@ + putsp_text(state@.mem, addr as int) =~= out@);
    out
}

/// `HALT`: the program counter goes to 0xFFFF, where the program stops.
pub fn trap_halt(state: &mut RunState)
    requires
        old(state).wf(),
    ensures
        final(state).wf(),
        final(state)@ == with_pc(old(state)@, HALT_ADDRESS),
        final(state).trap_table() == old(state).trap_table(),
{
    state.set_pc(HALT_ADDRESS);
}

} // verus!
