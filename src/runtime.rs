//! The machine: memory, registers, condition code, and the execution of one
//! instruction at a time.

use vstd::prelude::*;

use crate::traps::{TrapRoutine, Traps};

verus! {

/// The machine addresses 128KB of memory: 0x10000 words.
pub const MEMORY_MAX: usize = 0x10000;

/// First address of the device address space.
pub const DEVICE_SPACE: u16 = 0xfe00;

/// Where the program counter goes on a halt.
pub const HALT_ADDRESS: u16 = 0xffff;

/// The condition code, set by instructions that write a register.
#[derive(Clone, Copy, Debug, PartialEq, Eq, Structural)]
pub enum RunFlag {
    N,
    Z,
    P,
    Uninit,
}

impl RunFlag {
    /// The flag as the three bits `nzp` that a branch tests.
    pub open spec fn bits_spec(self) -> u16 {
        match self {
            RunFlag::N => 0b100,
            RunFlag::Z => 0b010,
            RunFlag::P => 0b001,
            RunFlag::Uninit => 0b000,
        }
    }

    /// Returns the flag as the three bits `nzp` that a branch tests.
    pub fn bits(&self) -> (r: u16)
        ensures
            r == self.bits_spec(),
    {
        match self {
            RunFlag::N => 0b100,
            RunFlag::Z => 0b010,
            RunFlag::P => 0b001,
            RunFlag::Uninit => 0b000,
        }
    }
}

/// The machine as plain values.
pub struct MachineView {
    pub mem: Seq<u16>,
    pub pc: u16,
    pub reg: Seq<u16>,
    pub flag: RunFlag,
}

/// `x + y`, wrapped to 16 bits.
pub open spec fn wrap_add(x: u16, y: u16) -> u16 {
    if x + y > 0xffff {
        (x + y - 0x10000) as u16
    } else {
        (x + y) as u16
    }
}

/// `x - y`, wrapped to 16 bits.
pub open spec fn wrap_sub(x: u16, y: u16) -> u16 {
    if x - y < 0 {
        (x - y + 0x10000) as u16
    } else {
        (x - y) as u16
    }
}

/// The low `bits` bits of `val`, with the highest of them copied into all
/// the bits above.
pub open spec fn sign_extend(val: u16, bits: u32) -> u16 {
    let mask = ((1u16 << bits as u16) - 1) as u16;
    if val & (1u16 << (bits - 1) as u16) == 0 {
        val & mask
    } else {
        (val & mask) | !mask
    }
}

/// The register number held by the three bits of `instr` from `shift` up.
pub open spec fn field(instr: u16, shift: u16) -> int {
    ((instr >> shift) & 7) as int
}

/// The condition code that a written value sets.
pub open spec fn flag_of(val: u16) -> RunFlag {
    if val >= 0x8000 {
        RunFlag::N
    } else if val == 0 {
        RunFlag::Z
    } else {
        RunFlag::P
    }
}

/// The machine with register `r` set to `val`.
pub open spec fn with_reg(m: MachineView, r: int, val: u16) -> MachineView {
    MachineView { reg: m.reg.update(r, val), ..m }
}

/// The machine with register `r` set to `val`, and the condition code set by `val`.
pub open spec fn with_result(m: MachineView, r: int, val: u16) -> MachineView {
    MachineView { reg: m.reg.update(r, val), flag: flag_of(val), ..m }
}

/// The machine with the word at `addr` set to `val`.
pub open spec fn with_mem(m: MachineView, addr: u16, val: u16) -> MachineView {
    MachineView { mem: m.mem.update(addr as int, val), ..m }
}

/// The machine with the program counter set to `pc`.
pub open spec fn with_pc(m: MachineView, pc: u16) -> MachineView {
    MachineView { pc, ..m }
}

/// The second operand of `ADD` and `AND`: a register, or a 5-bit immediate.
pub open spec fn operand(m: MachineView, instr: u16) -> u16 {
    if instr & 0b100000 == 0 {
        m.reg[field(instr, 0)]
    } else {
        sign_extend(instr, 5)
    }
}

/// The address `pc + offset9`, used by `LD`, `LDI`, `LEA`, `ST`, `STI`.
pub open spec fn pc_relative(m: MachineView, instr: u16) -> u16 {
    wrap_add(m.pc, sign_extend(instr, 9))
}

/// The address `base + offset6`, used by `LDR` and `STR`.
pub open spec fn base_relative(m: MachineView, instr: u16) -> u16 {
    wrap_add(m.reg[field(instr, 6)], sign_extend(instr, 6))
}

/// `BR`: jump by offset9 if the condition code has one of the bits `nzp`.
pub open spec fn op_br(m: MachineView, instr: u16) -> MachineView {
    if m.flag.bits_spec() & field(instr, 9) as u16 != 0 {
        with_pc(m, wrap_add(m.pc, sign_extend(instr, 9)))
    } else {
        m
    }
}

/// `ADD`
pub open spec fn op_add(m: MachineView, instr: u16) -> MachineView {
    with_result(m, field(instr, 9), wrap_add(m.reg[field(instr, 6)], operand(m, instr)))
}

/// `AND`
pub open spec fn op_and(m: MachineView, instr: u16) -> MachineView {
    with_result(m, field(instr, 9), m.reg[field(instr, 6)] & operand(m, instr))
}

/// `NOT`
pub open spec fn op_not(m: MachineView, instr: u16) -> MachineView {
    with_result(m, field(instr, 9), !m.reg[field(instr, 6)])
}

/// `LD`
pub open spec fn op_ld(m: MachineView, instr: u16) -> MachineView {
    with_result(m, field(instr, 9), m.mem[pc_relative(m, instr) as int])
}

/// `LDI`
pub open spec fn op_ldi(m: MachineView, instr: u16) -> MachineView {
    with_result(m, field(instr, 9), m.mem[m.mem[pc_relative(m, instr) as int] as int])
}

/// `LDR`
pub open spec fn op_ldr(m: MachineView, instr: u16) -> MachineView {
    with_result(m, field(instr, 9), m.mem[base_relative(m, instr) as int])
}

/// `LEA`
pub open spec fn op_lea(m: MachineView, instr: u16) -> MachineView {
    with_result(m, field(instr, 9), pc_relative(m, instr))
}

/// `ST`
pub open spec fn op_st(m: MachineView, instr: u16) -> MachineView {
    with_mem(m, pc_relative(m, instr), m.reg[field(instr, 9)])
}

/// `STI`
pub open spec fn op_sti(m: MachineView, instr: u16) -> MachineView {
    with_mem(m, m.mem[pc_relative(m, instr) as int], m.reg[field(instr, 9)])
}

/// `STR`
pub open spec fn op_str(m: MachineView, instr: u16) -> MachineView {
    with_mem(m, base_relative(m, instr), m.reg[field(instr, 9)])
}

/// `JMP` (and `RET`, which is `JMP R7`)
pub open spec fn op_jmp(m: MachineView, instr: u16) -> MachineView {
    with_pc(m, m.reg[field(instr, 6)])
}

/// `JSR` and `JSRR`: R7 is written before the base register is read.
pub open spec fn op_jsr(m: MachineView, instr: u16) -> MachineView {
    let m1 = with_reg(m, 7, m.pc);
    if instr & 0x800 == 0 {
        with_pc(m1, m1.reg[field(instr, 6)])
    } else {
        with_pc(m1, wrap_add(m.pc, sign_extend(instr, 11)))
    }
}

/// What each instruction does, given the machine after the program counter
/// was incremented past it. `RTI` and `TRAP` are left to the caller.
pub open spec fn execute(m: MachineView, instr: u16) -> MachineView {
    let opcode = instr >> 12;
    if opcode == 0x0 {
        op_br(m, instr)
    } else if opcode == 0x1 {
        op_add(m, instr)
    } else if opcode == 0x2 {
        op_ld(m, instr)
    } else if opcode == 0x3 {
        op_st(m, instr)
    } else if opcode == 0x4 {
        op_jsr(m, instr)
    } else if opcode == 0x5 {
        op_and(m, instr)
    } else if opcode == 0x6 {
        op_ldr(m, instr)
    } else if opcode == 0x7 {
        op_str(m, instr)
    } else if opcode == 0x9 {
        op_not(m, instr)
    } else if opcode == 0xA {
        op_ldi(m, instr)
    } else if opcode == 0xB {
        op_sti(m, instr)
    } else if opcode == 0xC {
        op_jmp(m, instr)
    } else if opcode == 0xD {
        stack_op(m, instr)
    } else if opcode == 0xE {
        op_lea(m, instr)
    } else {
        m
    }
}

/// The machine after pushing `val`: R7 is the stack pointer and grows down.
pub open spec fn push(m: MachineView, val: u16) -> MachineView {
    let sp = wrap_sub(m.reg[7], 1);
    with_mem(with_reg(m, 7, sp), sp, val)
}

/// The value on top of the stack.
pub open spec fn top(m: MachineView) -> u16 {
    m.mem[m.reg[7] as int]
}

/// The machine after popping the top of the stack.
pub open spec fn pop(m: MachineView) -> MachineView {
    with_reg(m, 7, wrap_add(m.reg[7], 1))
}

/// The stack extension: call, return, push and pop.
pub open spec fn stack_op(m: MachineView, instr: u16) -> MachineView {
    if instr & 0x0800 != 0 {
        if instr & 0x0400 != 0 {
            let m1 = push(m, m.pc);
            with_pc(m1, wrap_add(m.pc, sign_extend(instr, 10)))
        } else {
            with_pc(pop(m), top(m))
        }
    } else if instr & 0x0400 != 0 {
        push(m, m.reg[field(instr, 6)])
    } else {
        with_reg(pop(m), field(instr, 6), top(m))
    }
}

/// What happened when one instruction was run.
#[derive(Clone, Copy, Debug, PartialEq, Eq, Structural)]
pub enum Step {
    /// The instruction was executed.
    Executed,
    /// A trap routine must run now; the program counter already points past it.
    Trap(TrapRoutine),
    /// The program counter is in the device address space: nothing was run.
    DeviceSpace,
    /// A trap with no routine registered under its vector.
    UnknownTrap(u16),
    /// An instruction that the machine does not implement (`RTI`).
    Unimplemented,
}

/// One step of the machine with the trap table `traps`: the machine after
/// it, and what happened. Outside the device address space, the instruction
/// at the program counter is fetched and the program counter incremented;
/// then the instruction runs, except for `RTI` and `TRAP`, which are handed
/// back.
pub open spec fn step_spec(m: MachineView, traps: Seq<Option<TrapRoutine>>) -> (MachineView, Step) {
    if m.pc >= DEVICE_SPACE {
        (m, Step::DeviceSpace)
    } else {
        let instr = m.mem[m.pc as int];
        let next = with_pc(m, (m.pc + 1) as u16);
        let opcode = instr >> 12;
        if opcode == 0x8 {
            (next, Step::Unimplemented)
        } else if opcode == 0xF {
            let vector = instr & 0xff;
            match traps[vector as int] {
                Some(kind) => (next, Step::Trap(kind)),
                None => (next, Step::UnknownTrap(vector)),
            }
        } else {
            (execute(next, instr), Step::Executed)
        }
    }
}

/// Up to `budget` steps of the machine, stopping after the first step that
/// does not simply execute an instruction.
pub open spec fn run_spec(m: MachineView, traps: Seq<Option<TrapRoutine>>, budget: nat) -> (MachineView, Step)
    decreases budget,
{
    if budget == 0 {
        (m, Step::Executed)
    } else {
        let (m1, r) = step_spec(m, traps);
        if r == Step::Executed {
            run_spec(m1, traps, (budget - 1) as nat)
        } else {
            (m1, r)
        }
    }
}

/// Represents complete program state during runtime.
pub struct RunState {
    /// System memory: one word for every 16-bit address.
    mem: Vec<u16>,
    /// Program counter
    pc: u16,
    /// 8x 16-bit registers
    reg: Vec<u16>,
    /// Condition code
    flag: RunFlag,
    traps: Traps,
}

impl View for RunState {
    type V = MachineView;

    closed spec fn view(&self) -> MachineView {
        MachineView { mem: self.mem@, pc: self.pc, reg: self.reg@, flag: self.flag }
    }
}

impl RunState {
    /// A full memory and eight registers.
    pub open spec fn wf(&self) -> bool {
        self@.mem.len() == MEMORY_MAX && self@.reg.len() == 8 && self.trap_table().wf()
    }

    /// The trap routines that this machine calls.
    pub closed spec fn trap_table(&self) -> Traps {
        self.traps
    }

    /// Load `raw` into memory: its first word is the origin, where the rest is
    /// placed and where the program counter starts. R7, the stack pointer,
    /// starts at 0xFDFF; the other registers at 0. `None` when the program
    /// runs past the end of memory.
    pub fn from_raw(raw: &[u16], traps: Traps) -> (r: Option<RunState>)
        requires
            traps.wf(),
        ensures
            raw@.len() == 0 || raw@[0] as int + raw@.len() > MEMORY_MAX <==> r is None,
            r matches Some(state) ==> state.wf() && {
                let orig = raw@[0] as int;
                &&& state@.pc == raw@[0]
                &&& state@.flag == RunFlag::Uninit
                &&& state@.reg == seq![0u16, 0, 0, 0, 0, 0, 0, 0xfdff]
                &&& state.trap_table() == traps
                &&& forall|a: int|
                    0 <= a < MEMORY_MAX ==> #[trigger] state@.mem[a] == if orig <= a < orig + raw@.len() - 1 {
                        raw@[a - orig + 1]
                    } else {
                        0
                    }
            },
    {
        if raw.len() == 0 {
            return None;
        }
        let orig = raw[0] as usize;
        if raw.len() > MEMORY_MAX - orig {
            return None;
        }
        let mut mem: Vec<u16> = Vec::new();
        let mut a: usize = 0;
        while a < MEMORY_MAX
            invariant
                raw@.len() >= 1,
                orig == raw@[0] as int,
                orig + raw@.len() <= MEMORY_MAX,
                a <= MEMORY_MAX,
                mem@.len() == a,
                forall|b: int|
                    0 <= b < a ==> #[trigger] mem@[b] == if orig <= b < orig + raw@.len() - 1 {
                        raw@[b - orig + 1]
                    } else {
                        0
                    },
            decreases MEMORY_MAX - a,
        {
            let word = if orig <= a && a < orig + raw.len() - 1 {
                raw[a - orig + 1]
            } else {
                0
            };
            mem.push(word);
            a += 1;
        }
        let reg = vec![0u16, 0, 0, 0, 0, 0, 0, 0xfdff];
        assert(reg@ =~= seq![0u16, 0, 0, 0, 0, 0, 0, 0xfdff]);
        Some(RunState { mem, pc: orig as u16, reg, flag: RunFlag::Uninit, traps })
    }

    /// A copy of this machine, independent of it.
    pub fn duplicate(&self) -> (r: RunState)
        requires
            self.wf(),
        ensures
            r@ == self@,
            r.trap_table()@ == self.trap_table()@,
            r.wf(),
    {
        let mem = self.mem.clone();
        let reg = self.reg.clone();
        assert(mem@ =~= self.mem@);
        assert(reg@ =~= self.reg@);
        RunState { mem, pc: self.pc, reg, flag: self.flag, traps: self.traps.duplicate() }
    }

    /// The program counter.
    pub fn pc(&self) -> (r: u16)
        ensures
            r == self@.pc,
    {
        self.pc
    }

    /// Set the program counter.
    pub fn set_pc(&mut self, pc: u16)
        requires
            old(self).wf(),
        ensures
            final(self).wf(),
            final(self)@ == with_pc(old(self)@, pc),
            final(self).trap_table() == old(self).trap_table(),
    {
        self.pc = pc;
    }

    /// The value of register `reg`.
    pub fn reg(&self, reg: u16) -> (r: u16)
        requires
            self.wf(),
            reg < 8,
        ensures
            r == self@.reg[reg as int],
    {
        self.reg[reg as usize]
    }

    /// Set register `reg` to `val`.
    pub fn set_reg(&mut self, reg: u16, val: u16)
        requires
            old(self).wf(),
            reg < 8,
        ensures
            final(self).wf(),
            final(self)@ == with_reg(old(self)@, reg as int, val),
            final(self).trap_table() == old(self).trap_table(),
    {
        self.reg.set(reg as usize, val);
    }

    /// The word at `addr`.
    pub fn mem(&self, addr: u16) -> (r: u16)
        requires
            self.wf(),
        ensures
            r == self@.mem[addr as int],
    {
        self.mem[addr as usize]
    }

    /// Set the word at `addr` to `val`.
    pub fn set_mem(&mut self, addr: u16, val: u16)
        requires
            old(self).wf(),
        ensures
            final(self).wf(),
            final(self)@ == with_mem(old(self)@, addr, val),
            final(self).trap_table() == old(self).trap_table(),
    {
        self.mem.set(addr as usize, val);
    }

    /// The condition code.
    pub fn flag(&self) -> (r: RunFlag)
        ensures
            r == self@.flag,
    {
        self.flag
    }

    /// Sign-extend the low `bits` bits of `val` to 16 bits.
    pub fn s_ext(val: u16, bits: u32) -> (r: u16)
        requires
            0 < bits < 16,
        ensures
            r == sign_extend(val, bits),
    {
        let b = bits as u16;
        assert(1u16 << b >= 1) by (bit_vector)
            requires
                b < 16,
        ;
        let mask: u16 = (1u16 << b) - 1;
        // Bits lower than the sign bit, and the sign bit
        let low = val & mask;
        if val & (1u16 << (b - 1)) == 0 {
            low
        } else {
            // A negative value sets every bit above the sign bit
            low | !mask
        }
    }

    /// The register number held by three bits of `instr` from `shift` up.
    fn field(instr: u16, shift: u16) -> (r: u16)
        requires
            shift < 16,
        ensures
            r as int == field(instr, shift),
            r < 8,
    {
        let r = (instr >> shift) & 0b111;
        assert(r < 8) by (bit_vector)
            requires
                r == (instr >> shift) & 0b111,
        ;
        r
    }

    fn set_flags(&mut self, val: u16)
        requires
            old(self).wf(),
        ensures
            final(self).wf(),
            final(self)@ == (MachineView { flag: flag_of(val), ..old(self)@ }),
            final(self).trap_table() == old(self).trap_table(),
    {
        self.flag = if val >= 0x8000 {
            RunFlag::N
        } else if val == 0 {
            RunFlag::Z
        } else {
            RunFlag::P
        };
    }

    /// Write a result to a register and set the condition code by it.
    fn set_result(&mut self, reg: u16, val: u16)
        requires
            old(self).wf(),
            reg < 8,
        ensures
            final(self).wf(),
            final(self)@ == with_result(old(self)@, reg as int, val),
            final(self).trap_table() == old(self).trap_table(),
    {
        self.set_reg(reg, val);
        self.set_flags(val);
    }

    fn push_val(&mut self, val: u16)
        requires
            old(self).wf(),
        ensures
            final(self).wf(),
            final(self)@ == push(old(self)@, val),
            final(self).trap_table() == old(self).trap_table(),
    {
        let sp = self.reg(7).wrapping_sub(1);
        self.set_reg(7, sp);
        self.set_mem(sp, val);
    }

    fn pop_val(&mut self) -> (r: u16)
        requires
            old(self).wf(),
        ensures
            final(self).wf(),
            r == top(old(self)@),
            final(self)@ == pop(old(self)@),
            final(self).trap_table() == old(self).trap_table(),
    {
        let sp = self.reg(7);
        let val = self.mem(sp);
        self.set_reg(7, sp.wrapping_add(1));
        val
    }

    fn operand(&self, instr: u16) -> (r: u16)
        requires
            self.wf(),
        ensures
            r == operand(self@, instr),
    {
        if instr & 0b100000 == 0 {
            self.reg(Self::field(instr, 0))
        } else {
            Self::s_ext(instr, 5)
        }
    }

    fn stack(&mut self, instr: u16)
        requires
            old(self).wf(),
        ensures
            final(self).wf(),
            final(self)@ == stack_op(old(self)@, instr),
            final(self).trap_table() == old(self).trap_table(),
    {
        // Bit to tell call/ret from push/pop
        if instr & 0x0800 != 0 {
            if instr & 0x0400 != 0 {
                // Call
                let pc = self.pc;
                self.push_val(pc);
                self.pc = pc.wrapping_add(Self::s_ext(instr, 10));
            } else {
                // Ret
                self.pc = self.pop_val();
            }
        } else {
            let reg = Self::field(instr, 6);
            if instr & 0x0400 != 0 {
                // Push
                let val = self.reg(reg);
                self.push_val(val);
            } else {
                // Pop
                let val = self.pop_val();
                self.set_reg(reg, val);
            }
        }
    }

    /// Run the instruction at the program counter, with the program
    /// counter incremented first. A trap is handed back for its routine to
    /// run; so is an instruction that cannot run.
    pub fn step(&mut self) -> (r: Step)
        requires
            old(self).wf(),
        ensures
            final(self).wf(),
            final(self).trap_table() == old(self).trap_table(),
            (final(self)@, r) == step_spec(old(self)@, old(self).trap_table()@),
    {
        if self.pc >= DEVICE_SPACE {
            return Step::DeviceSpace;
        }
        let instr = self.mem(self.pc);
        let opcode = instr >> 12;
        assert(opcode <= 0xF) by (bit_vector)
            requires
                opcode == instr >> 12,
        ;
        // The program counter is incremented before the instruction is performed
        self.pc = self.pc + 1;
        if opcode == 0x0 {
            self.br(instr);
        } else if opcode == 0x1 {
            self.add(instr);
        } else if opcode == 0x2 {
            self.ld(instr);
        } else if opcode == 0x3 {
            self.st(instr);
        } else if opcode == 0x4 {
            self.jsr(instr);
        } else if opcode == 0x5 {
            self.and(instr);
        } else if opcode == 0x6 {
            self.ldr(instr);
        } else if opcode == 0x7 {
            self.str(instr);
        } else if opcode == 0x8 {
            return Step::Unimplemented;
        } else if opcode == 0x9 {
            self.not(instr);
        } else if opcode == 0xA {
            self.ldi(instr);
        } else if opcode == 0xB {
            self.sti(instr);
        } else if opcode == 0xC {
            self.jmp(instr);
        } else if opcode == 0xD {
            self.stack(instr);
        } else if opcode == 0xE {
            self.lea(instr);
        } else {
            let vector = instr & 0xff;
            assert(vector < 0x100) by (bit_vector)
                requires
                    vector == instr & 0xff,
            ;
            return match self.traps.get(vector) {
                Some(kind) => Step::Trap(kind),
                None => Step::UnknownTrap(vector),
            };
        }
        Step::Executed
    }

    /// Run the program for at most `budget` steps, until it leaves user
    /// space, needs a trap routine, or reaches an instruction that cannot run.
    /// Returns what stopped it (`Executed` when the budget ran out).
    pub fn run(&mut self, budget: u32) -> (r: Step)
        requires
            old(self).wf(),
        ensures
            final(self).wf(),
            final(self).trap_table() == old(self).trap_table(),
            (final(self)@, r) == run_spec(old(self)@, old(self).trap_table()@, budget as nat),
    {
        let mut left = budget;
        while left > 0
            invariant
                self.wf(),
                self.trap_table() == old(self).trap_table(),
                run_spec(old(self)@, old(self).trap_table()@, budget as nat) == run_spec(
                    self@,
                    self.trap_table()@,
                    left as nat,
                ),
            decreases left,
        {
            let r = self.step();
            if r != Step::Executed {
                return r;
            }
            left = left - 1;
        }
        Step::Executed
    }

    fn add(&mut self, instr: u16)
        requires
            old(self).wf(),
        ensures
            final(self).wf(),
            final(self)@ == op_add(old(self)@, instr),
            final(self).trap_table() == old(self).trap_table(),
    {
        let dr = Self::field(instr, 9);
        let val1 = self.reg(Self::field(instr, 6));
        let val2 = self.operand(instr);
        self.set_result(dr, val1.wrapping_add(val2));
    }

    fn and(&mut self, instr: u16)
        requires
            old(self).wf(),
        ensures
            final(self).wf(),
            final(self)@ == op_and(old(self)@, instr),
            final(self).trap_table() == old(self).trap_table(),
    {
        let dr = Self::field(instr, 9);
        let val1 = self.reg(Self::field(instr, 6));
        let val2 = self.operand(instr);
        self.set_result(dr, val1 & val2);
    }

    fn not(&mut self, instr: u16)
        requires
            old(self).wf(),
        ensures
            final(self).wf(),
            final(self)@ == op_not(old(self)@, instr),
            final(self).trap_table() == old(self).trap_table(),
    {
        let dr = Self::field(instr, 9);
        let val = !self.reg(Self::field(instr, 6));
        self.set_result(dr, val);
    }

    fn br(&mut self, instr: u16)
        requires
            old(self).wf(),
        ensures
            final(self).wf(),
            final(self)@ == op_br(old(self)@, instr),
            final(self).trap_table() == old(self).trap_table(),
    {
        let flag = Self::field(instr, 9);
        if self.flag.bits() & flag != 0 {
            self.pc = self.pc.wrapping_add(Self::s_ext(instr, 9));
        }
    }

    fn jmp(&mut self, instr: u16)
        requires
            old(self).wf(),
        ensures
            final(self).wf(),
            final(self)@ == op_jmp(old(self)@, instr),
            final(self).trap_table() == old(self).trap_table(),
    {
        self.pc = self.reg(Self::field(instr, 6));
    }

    fn jsr(&mut self, instr: u16)
        requires
            old(self).wf(),
        ensures
            final(self).wf(),
            final(self)@ == op_jsr(old(self)@, instr),
            final(self).trap_table() == old(self).trap_table(),
    {
        let pc = self.pc;
        self.set_reg(7, pc);
        if instr & 0x800 == 0 {
            // Register
            self.pc = self.reg(Self::field(instr, 6));
        } else {
            // Offset
            self.pc = pc.wrapping_add(Self::s_ext(instr, 11));
        }
    }

    fn ld(&mut self, instr: u16)
        requires
            old(self).wf(),
        ensures
            final(self).wf(),
            final(self)@ == op_ld(old(self)@, instr),
            final(self).trap_table() == old(self).trap_table(),
    {
        let dr = Self::field(instr, 9);
        let val = self.mem(self.pc.wrapping_add(Self::s_ext(instr, 9)));
        self.set_result(dr, val);
    }

    fn ldi(&mut self, instr: u16)
        requires
            old(self).wf(),
        ensures
            final(self).wf(),
            final(self)@ == op_ldi(old(self)@, instr),
            final(self).trap_table() == old(self).trap_table(),
    {
        let dr = Self::field(instr, 9);
        let ptr = self.mem(self.pc.wrapping_add(Self::s_ext(instr, 9)));
        let val = self.mem(ptr);
        self.set_result(dr, val);
    }

    fn ldr(&mut self, instr: u16)
        requires
            old(self).wf(),
        ensures
            final(self).wf(),
            final(self)@ == op_ldr(old(self)@, instr),
            final(self).trap_table() == old(self).trap_table(),
    {
        let dr = Self::field(instr, 9);
        let ptr = self.reg(Self::field(instr, 6));
        let val = self.mem(ptr.wrapping_add(Self::s_ext(instr, 6)));
        self.set_result(dr, val);
    }

    fn lea(&mut self, instr: u16)
        requires
            old(self).wf(),
        ensures
            final(self).wf(),
            final(self)@ == op_lea(old(self)@, instr),
            final(self).trap_table() == old(self).trap_table(),
    {
        let dr = Self::field(instr, 9);
        let val = self.pc.wrapping_add(Self::s_ext(instr, 9));
        self.set_result(dr, val);
    }

    fn st(&mut self, instr: u16)
        requires
            old(self).wf(),
        ensures
            final(self).wf(),
            final(self)@ == op_st(old(self)@, instr),
            final(self).trap_table() == old(self).trap_table(),
    {
        let val = self.reg(Self::field(instr, 9));
        let addr = self.pc.wrapping_add(Self::s_ext(instr, 9));
        self.set_mem(addr, val);
    }

    fn sti(&mut self, instr: u16)
        requires
            old(self).wf(),
        ensures
            final(self).wf(),
            final(self)@ == op_sti(old(self)@, instr),
            final(self).trap_table() == old(self).trap_table(),
    {
        let val = self.reg(Self::field(instr, 9));
        let ptr = self.mem(self.pc.wrapping_add(Self::s_ext(instr, 9)));
        self.set_mem(ptr, val);
    }

    fn str(&mut self, instr: u16)
        requires
            old(self).wf(),
        ensures
            final(self).wf(),
            final(self)@ == op_str(old(self)@, instr),
            final(self).trap_table() == old(self).trap_table(),
    {
        let val = self.reg(Self::field(instr, 9));
        let ptr = self.reg(Self::field(instr, 6));
        self.set_mem(ptr.wrapping_add(Self::s_ext(instr, 6)), val);
    }
}

} // verus!
