use lace::debugger::{
    Action, Boundary, Breakpoint, Debugger, DebuggerOptions, Notice, Outcome, RelevantInstr,
    ResolveError, Status,
};
use lace::resolve::parse_command;
use lace::runtime::RunState;
use lace::symbol::SymbolTable;
use lace::traps::Traps;

// 0x3000: JSR +3      (calls 0x3004)
// 0x3001: ADD R1, R1, #1
// 0x3002: ADD R1, R1, #1
// 0x3003: HALT
// 0x3004: ADD R0, R0, #1
// 0x3005: RET
const PROGRAM: [u16; 7] = [0x3000, 0x4803, 0x1261, 0x1261, 0xf025, 0x1021, 0xc1c0];

fn machine() -> RunState {
    RunState::from_raw(&PROGRAM, Traps::default()).unwrap()
}

fn debugger(state: &RunState, breakpoints: Vec<Breakpoint>, symbols: SymbolTable) -> Debugger {
    let opts = DebuggerOptions {
        minimal: false,
        command: None,
    };
    Debugger::new(opts, state.duplicate(), breakpoints, symbols)
}

fn command(dbg: &mut Debugger, state: &mut RunState, line: &str) -> Outcome {
    dbg.next_action(state, parse_command(line).unwrap())
}

/// Runs instructions until control goes back to the operator; returns the
/// boundary that asked, and how many instructions ran.
fn run_until_prompt(dbg: &mut Debugger, state: &mut RunState, mut boundary: Boundary) -> (Boundary, u32) {
    let mut executed = 0;
    while !boundary.prompt {
        state.step();
        dbg.count_instruction();
        executed += 1;
        boundary = dbg.wait_for_action(state);
    }
    (boundary, executed)
}

#[test]
fn breakpoints_are_added_listed_and_removed() {
    let mut state = machine();
    let mut dbg = debugger(&state, vec![], SymbolTable::new());
    assert_eq!(
        command(&mut dbg, &mut state, "breakadd 0x3005"),
        Outcome::BreakpointAdded { address: 0x3005 }
    );
    assert_eq!(command(&mut dbg, &mut state, "breaklist"), Outcome::BreakpointList);
    assert_eq!(dbg.breakpoints().addresses(), vec![0x3005]);
    assert_eq!(
        command(&mut dbg, &mut state, "breakadd x3005"),
        Outcome::BreakpointExists { address: 0x3005 }
    );
    assert_eq!(dbg.breakpoints().len(), 1);
    assert_eq!(
        command(&mut dbg, &mut state, "breakremove 0x3005"),
        Outcome::BreakpointRemoved { address: 0x3005 }
    );
    assert_eq!(command(&mut dbg, &mut state, "breaklist"), Outcome::BreakpointList);
    assert!(dbg.breakpoints().is_empty());
    assert_eq!(
        command(&mut dbg, &mut state, "breakremove 0x3005"),
        Outcome::NoBreakpoint { address: 0x3005 }
    );
}

#[test]
fn labels_resolve_from_the_origin() {
    let mut state = machine();
    let mut symbols = SymbolTable::new();
    symbols.insert("LOOP".into(), 3);
    symbols.insert("LATE".into(), 0xd000);
    // A second entry for a name replaces the first
    symbols.insert("LOOP".into(), 9);
    symbols.insert("LOOP".into(), 3);
    let mut dbg = debugger(&state, vec![], symbols);
    assert_eq!(
        command(&mut dbg, &mut state, "get LOOP"),
        Outcome::MemoryValue {
            address: 0x3002,
            value: 0x1261
        }
    );
    assert_eq!(
        command(&mut dbg, &mut state, "get LOOP+2"),
        Outcome::MemoryValue {
            address: 0x3004,
            value: 0x1021
        }
    );
    assert_eq!(
        command(&mut dbg, &mut state, "get LOOP-3"),
        Outcome::Unresolved(ResolveError::OutOfBounds)
    );
    assert_eq!(
        command(&mut dbg, &mut state, "get LATE"),
        Outcome::Unresolved(ResolveError::OutOfBounds)
    );
    assert_eq!(
        command(&mut dbg, &mut state, "get NOWHERE"),
        Outcome::Unresolved(ResolveError::LabelNotFound)
    );
    assert_eq!(dbg.orig(), 0x3000);
}

#[test]
fn breakpoint_pauses_once_until_left() {
    let mut state = machine();
    let bp = Breakpoint {
        address: 0x3000,
        predefined: true,
    };
    let mut dbg = debugger(&state, vec![bp], SymbolTable::new());
    let first = dbg.wait_for_action(&state);
    assert_eq!(first.notice, Notice::Breakpoint { predefined: true });
    assert!(first.prompt);
    assert_eq!(command(&mut dbg, &mut state, "continue"), Outcome::Continuing);
    // Checking the same boundary again does not pause
    let again = dbg.wait_for_action(&state);
    assert_eq!(again.notice, Notice::Nothing);
    assert!(!again.prompt);
    // Away and back pauses again
    state.set_pc(0x3001);
    assert!(!dbg.wait_for_action(&state).prompt);
    state.set_pc(0x3000);
    let back = dbg.wait_for_action(&state);
    assert_eq!(back.notice, Notice::Breakpoint { predefined: true });
    assert!(back.prompt);
}

#[test]
fn next_steps_over_a_call() {
    let mut state = machine();
    let mut dbg = debugger(&state, vec![], SymbolTable::new());
    let b = dbg.wait_for_action(&state);
    assert!(b.prompt);
    assert_eq!(command(&mut dbg, &mut state, "next"), Outcome::SteppingOver);
    assert_eq!(dbg.status(), Status::Next { return_addr: 0x3001 });
    let b = dbg.wait_for_single_action(&state, b.instr, Notice::Nothing);
    let (b, executed) = run_until_prompt(&mut dbg, &mut state, b);
    // JSR, ADD, RET
    assert_eq!(executed, 3);
    assert_eq!(state.pc(), 0x3001);
    assert_eq!(b.notice, Notice::SubroutineEnd);
    assert_eq!(dbg.status(), Status::WaitForAction);
    assert_eq!(state.reg(0), 1);
}

#[test]
fn finish_runs_out_of_the_subroutine() {
    let mut state = machine();
    let mut dbg = debugger(&state, vec![], SymbolTable::new());
    // Into the subroutine
    let b = dbg.wait_for_action(&state);
    assert_eq!(command(&mut dbg, &mut state, "progress"), Outcome::Stepping);
    let b = dbg.wait_for_single_action(&state, b.instr, Notice::Nothing);
    let (b, executed) = run_until_prompt(&mut dbg, &mut state, b);
    assert_eq!(executed, 1);
    assert_eq!(state.pc(), 0x3004);
    assert_eq!(dbg.take_progress().executed, 1);
    assert_eq!(command(&mut dbg, &mut state, "finish"), Outcome::Finishing);
    let b = dbg.wait_for_single_action(&state, b.instr, Notice::Nothing);
    let (b, executed) = run_until_prompt(&mut dbg, &mut state, b);
    // ADD and RET in the subroutine; control returns right after the RET
    assert_eq!(executed, 2);
    assert_eq!(state.pc(), 0x3001);
    assert_eq!(state.reg(1), 0);
    assert_eq!(state.reg(0), 1);
    assert!(b.prompt);
}

#[test]
fn halt_pauses_and_device_space_passes() {
    let mut state = machine();
    let mut dbg = debugger(&state, vec![], SymbolTable::new());
    assert_eq!(command(&mut dbg, &mut state, "c"), Outcome::Continuing);
    state.set_pc(0x3003);
    let b = dbg.wait_for_action(&state);
    assert_eq!(b.notice, Notice::Halt);
    assert_eq!(b.instr, Some(RelevantInstr::TrapHalt));
    assert!(b.prompt);
    state.set_pc(0xfe00);
    let b = dbg.wait_for_action(&state);
    assert_eq!(b.notice, Notice::DeviceSpace);
    assert!(!b.prompt);
}

#[test]
fn stepping_counts_down() {
    let mut state = machine();
    let mut dbg = debugger(&state, vec![], SymbolTable::new());
    let b = dbg.wait_for_action(&state);
    assert_eq!(command(&mut dbg, &mut state, "p 2"), Outcome::Stepping);
    assert_eq!(dbg.status(), Status::Step { count: 1 });
    let b = dbg.wait_for_single_action(&state, b.instr, Notice::Nothing);
    let (_, executed) = run_until_prompt(&mut dbg, &mut state, b);
    assert_eq!(executed, 2);
}

#[test]
fn commands_read_and_write_the_machine() {
    let mut state = machine();
    let mut dbg = debugger(&state, vec![], SymbolTable::new());
    assert_eq!(
        command(&mut dbg, &mut state, "set r2 x1234"),
        Outcome::RegisterSet {
            register: lace::command::Register::R2
        }
    );
    assert_eq!(state.reg(2), 0x1234);
    assert_eq!(
        command(&mut dbg, &mut state, "set x4000 7"),
        Outcome::MemorySet { address: 0x4000 }
    );
    assert_eq!(state.mem(0x4000), 7);
    assert_eq!(
        command(&mut dbg, &mut state, "get ^1"),
        Outcome::MemoryValue {
            address: 0x3001,
            value: 0x1261
        }
    );
    assert_eq!(command(&mut dbg, &mut state, "reset"), Outcome::Reset);
    assert_eq!(state.reg(2), 0);
    assert_eq!(state.mem(0x4000), 0);
    assert!(dbg.take_progress().pc_changed);
    assert_eq!(command(&mut dbg, &mut state, "quit"), Outcome::Stop(Action::StopDebugger));
    assert_eq!(command(&mut dbg, &mut state, "exit"), Outcome::Stop(Action::ExitProgram));
    assert_eq!(command(&mut dbg, &mut state, "jump x3000"), Outcome::NotImplemented);
}

#[test]
fn relevant_instructions() {
    assert_eq!(RelevantInstr::try_from(0xc1c0), Ok(RelevantInstr::Ret));
    assert_eq!(RelevantInstr::try_from(0xf025), Ok(RelevantInstr::TrapHalt));
    assert_eq!(RelevantInstr::try_from(0xc080), Err(()));
    assert_eq!(RelevantInstr::try_from(0xf021), Err(()));
}
