use lace::runtime::{RunFlag, RunState, Step};
use lace::traps::{trap_getc, trap_halt, trap_out, trap_puts, trap_putsp, TrapRoutine, Traps};

fn load(words: &[u16]) -> RunState {
    RunState::from_raw(words, Traps::default()).unwrap()
}

fn expect(input: u16, bits: u32, expected: u16) {
    let actual = RunState::s_ext(input, bits);
    assert_eq!(actual, expected, "s_ext(0x{input:04x}, {bits})");
}

#[test]
fn s_ext() {
    expect(0x0000, 15, 0x0000);
    expect(0x0000, 1, 0x0000);

    expect(0x0001, 15, 0x0001);
    expect(0x0001, 2, 0x0001);
    expect(0x0001, 1, 0xffff);

    expect(0x00ff, 15, 0x00ff);
    expect(0x00ff, 9, 0x00ff);
    expect(0x00ff, 8, 0xffff);
    expect(0x00ff, 7, 0xffff);

    expect(0x0100, 15, 0x0100);
    expect(0x0100, 10, 0x0100);
    expect(0x0100, 9, 0xff00);
    expect(0x0100, 8, 0x0000);

    expect(0x03ff, 15, 0x03ff);
    expect(0x03ff, 11, 0x03ff);
    expect(0x03ff, 10, 0xffff);
    expect(0x03ff, 7, 0xffff);

    expect(0x0400, 15, 0x0400);
    expect(0x0400, 12, 0x0400);
    expect(0x0400, 11, 0xfc00);
    expect(0x0400, 10, 0x0000);

    expect(0x07ff, 15, 0x07ff);
    expect(0x07ff, 12, 0x07ff);
    expect(0x07ff, 11, 0xffff);
    expect(0x07ff, 7, 0xffff);

    expect(0x0fff, 15, 0x0fff);
    expect(0x0fff, 13, 0x0fff);
    expect(0x0fff, 12, 0xffff);
    expect(0x0fff, 11, 0xffff);

    expect(0x1000, 15, 0x1000);
    expect(0x1000, 14, 0x1000);
    expect(0x1000, 13, 0xf000);
    expect(0x1000, 12, 0x0000);
    expect(0x1000, 11, 0x0000);

    expect(0x1fff, 15, 0x1fff);
    expect(0x1fff, 14, 0x1fff);
    expect(0x1fff, 13, 0xffff);

    expect(0x3000, 15, 0x3000);
    expect(0x3000, 14, 0xf000);
    expect(0x3000, 13, 0xf000);
    expect(0x3000, 12, 0x0000);

    expect(0x3fff, 15, 0x3fff);
    expect(0x3fff, 14, 0xffff);
    expect(0x3fff, 11, 0xffff);

    expect(0x7000, 15, 0xf000);
    expect(0x7000, 13, 0xf000);
    expect(0x7000, 12, 0x0000);

    expect(0x7fff, 15, 0xffff);
    expect(0x7fff, 11, 0xffff);

    expect(0xfffe, 15, 0xfffe);
    expect(0xfffe, 9, 0xfffe);
    expect(0xfffe, 2, 0xfffe);
    expect(0xfffe, 1, 0x0000);

    expect(0xffff, 15, 0xffff);
    expect(0xffff, 1, 0xffff);
}

#[test]
fn loading_places_the_program_at_its_origin() {
    let state = load(&[0x3000, 0x1234, 0x5678]);
    assert_eq!(state.pc(), 0x3000);
    assert_eq!(state.mem(0x3000), 0x1234);
    assert_eq!(state.mem(0x3001), 0x5678);
    assert_eq!(state.mem(0x3002), 0);
    assert_eq!(state.reg(7), 0xfdff);
    assert_eq!(state.flag(), RunFlag::Uninit);
    assert!(RunState::from_raw(&[0xffff, 1, 2], Traps::default()).is_none());
    assert!(RunState::from_raw(&[], Traps::default()).is_none());
}

#[test]
fn arithmetic_sets_the_condition_code() {
    // ADD R0, R0, #-1; NOT R1, R0; AND R2, R0, #0; ADD R3, R2, R2 (0) ; ADD R4, R3, #5
    let mut state = load(&[0x3000, 0x103f, 0x923f, 0x5420, 0x1682, 0x18e5]);
    assert_eq!(state.step(), Step::Executed);
    assert_eq!(state.reg(0), 0xffff);
    assert_eq!(state.flag(), RunFlag::N);
    state.step();
    assert_eq!(state.reg(1), 0x0000);
    assert_eq!(state.flag(), RunFlag::Z);
    state.step();
    assert_eq!(state.reg(2), 0);
    state.step();
    assert_eq!(state.reg(3), 0);
    state.step();
    assert_eq!(state.reg(4), 5);
    assert_eq!(state.flag(), RunFlag::P);
    assert_eq!(state.pc(), 0x3005);
}

#[test]
fn loads_stores_and_branches() {
    // 0x3000 LD R0, +3      (0x3004 -> 0x002a)
    // 0x3001 ST R0, +3      (-> 0x3005)
    // 0x3002 BRp +1         (taken: skips 0x3003)
    // 0x3003 ADD R0, R0, #1
    // 0x3004 .FILL 0x002a
    let mut state = load(&[0x3000, 0x2003, 0x3003, 0x0201, 0x1021, 0x002a]);
    state.step();
    assert_eq!(state.reg(0), 0x2a);
    state.step();
    assert_eq!(state.mem(0x3005), 0x2a);
    state.step();
    assert_eq!(state.pc(), 0x3004);
}

#[test]
fn lea_ldr_str_jmp() {
    // LEA R1, #2 ; LDR R2, R1, #0 ; STR R2, R1, #1 ; JMP R1
    let mut state = load(&[0x3000, 0xe202, 0x6440, 0x7441, 0xc040, 0x0099]);
    state.step();
    assert_eq!(state.reg(1), 0x3003);
    state.step();
    assert_eq!(state.reg(2), 0xc040);
    state.step();
    assert_eq!(state.mem(0x3004), 0xc040);
    state.step();
    assert_eq!(state.pc(), 0x3003);
}

#[test]
fn traps_and_faults_are_handed_back() {
    let mut state = load(&[0x3000, 0xf022, 0xf0ff, 0x8000, 0xf025]);
    assert_eq!(state.step(), Step::Trap(TrapRoutine::Puts));
    assert_eq!(state.step(), Step::UnknownTrap(0xff));
    assert_eq!(state.step(), Step::Unimplemented);
    assert_eq!(state.run(10), Step::Trap(TrapRoutine::Halt));
    trap_halt(&mut state);
    assert_eq!(state.pc(), 0xffff);
    assert_eq!(state.step(), Step::DeviceSpace);
}

#[test]
fn run_stops_when_the_budget_is_spent() {
    // BRnzp -1: loops forever
    let mut state = load(&[0x3000, 0x0fff]);
    state.set_reg(0, 0);
    let mut state2 = load(&[0x3000, 0x0fff]);
    assert_eq!(state.run(5), Step::Executed);
    assert_eq!(state2.run(0), Step::Executed);
    assert_eq!(state2.pc(), 0x3000);
}

#[test]
fn trap_routines_read_and_write_the_machine() {
    let mut state = load(&[0x3000, 0x0048, 0x0069, 0x0000, 0x4865, 0x6c00]);
    state.set_reg(0, 0x3000);
    assert_eq!(trap_puts(&state), b"Hi".to_vec());
    state.set_reg(0, 0x3003);
    assert_eq!(trap_putsp(&state), b"Hel".to_vec());
    state.set_reg(0, 0x1241);
    assert_eq!(trap_out(&state), b'A');
    trap_getc(&mut state, b'z');
    assert_eq!(state.reg(0), b'z' as u16);
}

#[test]
fn stack_extension() {
    // PUSH R1 (0xD440), POP R2 (0xD080)
    let mut state = load(&[0x3000, 0xd440, 0xd080]);
    state.set_reg(1, 0xbeef);
    state.step();
    assert_eq!(state.reg(7), 0xfdfe);
    assert_eq!(state.mem(0xfdfe), 0xbeef);
    state.step();
    assert_eq!(state.reg(2), 0xbeef);
    assert_eq!(state.reg(7), 0xfdff);
}

#[test]
fn standard_trap_table() {
    let traps = Traps::default();
    assert_eq!(traps.get(0x20), Some(TrapRoutine::Getc));
    assert_eq!(traps.get(0x25), Some(TrapRoutine::Halt));
    assert_eq!(traps.get(0x27), Some(TrapRoutine::Reg));
    assert_eq!(traps.get(0x28), None);
    let mut more = Traps::empty();
    more.register(0x30, TrapRoutine::Putn);
    assert_eq!(more.get(0x30), Some(TrapRoutine::Putn));
}
