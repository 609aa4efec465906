use lace::command::{Command, Label, Location, MemoryLocation, Register};
use lace::error::{ArgumentError, CommandError, ValueError};
use lace::resolve::{eq_ignore_case, parse_command};

#[test]
fn aliases_resolve_case_insensitively() {
    assert_eq!(parse_command("help"), Ok(Command::Help));
    assert_eq!(parse_command("-H"), Ok(Command::Help));
    assert_eq!(parse_command("CONT"), Ok(Command::Continue));
    assert_eq!(parse_command("fin"), Ok(Command::Finish));
    assert_eq!(parse_command("exit"), Ok(Command::Exit));
    assert_eq!(parse_command("q"), Ok(Command::Quit));
    assert_eq!(parse_command("Reg"), Ok(Command::Registers));
    assert_eq!(parse_command("reset"), Ok(Command::Reset));
    assert_eq!(parse_command("n"), Ok(Command::Next));
    assert_eq!(parse_command("bl"), Ok(Command::BreakList));
    assert_eq!(parse_command("break list"), Ok(Command::BreakList));
    assert_eq!(parse_command("B L"), Ok(Command::BreakList));
    assert!(eq_ignore_case("BreakAdd", "breakadd"));
    assert!(!eq_ignore_case("break", "breaks"));
}

#[test]
fn step_count_defaults_and_clamps() {
    assert_eq!(parse_command("progress"), Ok(Command::Step { count: 1 }));
    assert_eq!(parse_command("p 5"), Ok(Command::Step { count: 5 }));
    assert_eq!(parse_command("p 0"), Ok(Command::Step { count: 1 }));
    assert_eq!(parse_command("p -3"), Ok(Command::Step { count: 1 }));
    assert_eq!(
        parse_command("p x10000"),
        Err(CommandError::Argument(ArgumentError::InvalidValue {
            argument_name: "count",
            string: "x10000".into(),
            error: ValueError::IntegerTooLarge { max: 0xffff },
        }))
    );
}

#[test]
fn locations_of_every_form() {
    assert_eq!(
        parse_command("get r3"),
        Ok(Command::Get {
            location: Location::Register(Register::R3)
        })
    );
    assert_eq!(
        parse_command("g x3005"),
        Ok(Command::Get {
            location: Location::Memory(MemoryLocation::Address(0x3005))
        })
    );
    assert_eq!(
        parse_command("g ^-2"),
        Ok(Command::Get {
            location: Location::Memory(MemoryLocation::PCOffset(-2))
        })
    );
    assert_eq!(
        parse_command("get LOOP+1"),
        Ok(Command::Get {
            location: Location::Memory(MemoryLocation::Label(Label {
                name: "LOOP".into(),
                offset: 1
            }))
        })
    );
    assert_eq!(
        parse_command("set r1 #-1"),
        Err(CommandError::Argument(ArgumentError::InvalidValue {
            argument_name: "value",
            string: "#-1".into(),
            error: ValueError::IntegerTooLarge { max: 0xffff },
        }))
    );
    assert_eq!(
        parse_command("s r1 x10"),
        Ok(Command::SetValue {
            location: Location::Register(Register::R1),
            value: 0x10
        })
    );
    assert_eq!(
        parse_command("asm"),
        Ok(Command::Source {
            location: MemoryLocation::PCOffset(0)
        })
    );
}

#[test]
fn breakpoint_commands() {
    assert_eq!(
        parse_command("breakadd 0x3005"),
        Ok(Command::BreakAdd {
            location: MemoryLocation::Address(0x3005)
        })
    );
    assert_eq!(
        parse_command("b remove x3005"),
        Ok(Command::BreakRemove {
            location: MemoryLocation::Address(0x3005)
        })
    );
    assert_eq!(
        parse_command("break"),
        Err(CommandError::MissingSubcommand {
            command_name: "break"
        })
    );
    assert_eq!(
        parse_command("break frob"),
        Err(CommandError::InvalidSubcommand {
            command_name: "break",
            subcommand_name: "frob".into()
        })
    );
    assert_eq!(
        parse_command("ba r1"),
        Err(CommandError::Argument(ArgumentError::InvalidValue {
            argument_name: "location",
            string: "r1".into(),
            error: ValueError::MismatchedType {
                expected_type: "memory location",
                actual_type: "register"
            },
        }))
    );
}

#[test]
fn argument_errors() {
    assert_eq!(
        parse_command("frobnicate"),
        Err(CommandError::InvalidCommand {
            command_name: "frobnicate".into()
        })
    );
    assert_eq!(
        parse_command("get"),
        Err(CommandError::Argument(ArgumentError::MissingArgument {
            argument_name: "location",
            expected_count: 1,
            actual_count: 0
        }))
    );
    assert_eq!(
        parse_command("set r0"),
        Err(CommandError::Argument(ArgumentError::MissingArgument {
            argument_name: "value",
            expected_count: 2,
            actual_count: 1
        }))
    );
    assert_eq!(
        parse_command("continue now"),
        Err(CommandError::Argument(ArgumentError::TooManyArguments {
            expected_count: 0,
            actual_count: 1
        }))
    );
    assert_eq!(
        parse_command("set r0 Foo"),
        Err(CommandError::Argument(ArgumentError::InvalidValue {
            argument_name: "value",
            string: "Foo".into(),
            error: ValueError::MismatchedType {
                expected_type: "integer",
                actual_type: "label"
            },
        }))
    );
    assert_eq!(
        parse_command("get !!"),
        Err(CommandError::Argument(ArgumentError::InvalidValue {
            argument_name: "location",
            string: "!!".into(),
            error: ValueError::MalformedValue,
        }))
    );
}

#[test]
fn integer_arguments_report_a_mismatch_when_no_integer() {
    for (token, actual_type) in [("!@#", "{unknown}"), ("^x", "PC offset"), ("Foo!", "label"), ("r1", "register")] {
        assert_eq!(
            parse_command(&format!("set r0 {}", token)),
            Err(CommandError::Argument(ArgumentError::InvalidValue {
                argument_name: "value",
                string: token.into(),
                error: ValueError::MismatchedType {
                    expected_type: "integer",
                    actual_type
                },
            })),
            "{}",
            token
        );
    }
    assert_eq!(
        parse_command("p --4"),
        Err(CommandError::Argument(ArgumentError::InvalidValue {
            argument_name: "count",
            string: "--4".into(),
            error: ValueError::MalformedInteger,
        }))
    );
}

#[test]
fn eval_takes_the_rest_of_the_line() {
    assert_eq!(
        parse_command("eval \t add r0, r0, #1 \t\r"),
        Ok(Command::Eval {
            instruction: "add r0, r0, #1".into()
        })
    );
    assert_eq!(
        parse_command("e \u{0B}x\u{A0}\u{3000}"),
        Ok(Command::Eval {
            instruction: "x".into()
        })
    );
    assert_eq!(
        parse_command("e \tx"),
        Ok(Command::Eval {
            instruction: "x".into()
        })
    );
    assert_eq!(
        parse_command("  eval   add r0, r0, #1   "),
        Ok(Command::Eval {
            instruction: "add r0, r0, #1".into()
        })
    );
    assert_eq!(
        parse_command("e"),
        Ok(Command::Eval {
            instruction: "".into()
        })
    );
}
