use lace::command::{Argument, Label, Register};
use lace::error::ValueError;
use lace::parse::CommandIter;

fn label(name: &str, offset: i16) -> Label {
    Label {
        name: name.into(),
        offset,
    }
}

fn expect_integer(require_sign: bool, input: &str, expected: Result<Option<i32>, ValueError>) {
    println!("Test input: <{}>", input);
    let mut iter = CommandIter::new(input);
    assert_eq!(iter.next_integer_token(require_sign), expected, "{}", input);
}

fn expect_integer_err(require_sign: bool, input: &str) {
    println!("Test input: <{}>", input);
    let mut iter = CommandIter::new(input);
    assert!(iter.next_integer_token(require_sign).is_err(), "{}", input);
}

fn expect_label(input: &str, expected: Option<Label>) {
    println!("Test input: <{}>", input);
    let mut iter = CommandIter::new(input);
    assert_eq!(iter.next_label_token(), Ok(expected), "{}", input);
}

fn expect_label_err(input: &str) {
    println!("Test input: <{}>", input);
    let mut iter = CommandIter::new(input);
    assert!(iter.next_label_token().is_err(), "{}", input);
}

fn expect_argument(input: &str, expected: Option<Argument>) {
    println!("Test input: <{}>", input);
    let mut iter = CommandIter::new(input);
    assert_eq!(iter.next_argument("dummy"), Ok(expected), "{}", input);
}

fn expect_register(input: &str, expected: Option<Register>) {
    println!("Test input: <{}>", input);
    let mut iter = CommandIter::new(input);
    assert_eq!(iter.next_register(), expected, "{}", input);
}

#[test]
fn many_arguments_works() {
    let line = "  name  -54  r3 0x5812 Foo name2  Bar+0x04 4209";
    let mut iter = CommandIter::new(line);

    let argument_name = "dummy";

    assert_eq!(iter.next_command_name_part(), Some("name"));
    assert_eq!(
        iter.next_argument(argument_name),
        Ok(Some(Argument::Integer(-54)))
    );
    assert_eq!(
        iter.next_argument(argument_name),
        Ok(Some(Argument::Register(Register::R3)))
    );
    assert_eq!(
        iter.next_argument(argument_name),
        Ok(Some(Argument::Integer(0x5812)))
    );
    assert_eq!(
        iter.next_argument(argument_name),
        Ok(Some(Argument::Label(Label {
            name: "Foo".into(),
            offset: 0,
        })))
    );
    assert_eq!(iter.next_command_name_part(), Some("name2"));
    assert_eq!(
        iter.next_argument(argument_name),
        Ok(Some(Argument::Label(Label {
            name: "Bar".into(),
            offset: 0x04,
        })))
    );
    assert_eq!(
        iter.next_argument(argument_name),
        Ok(Some(Argument::Integer(4209)))
    );
    assert_eq!(iter.next_argument(argument_name), Ok(None));
    assert_eq!(iter.next_argument(argument_name), Ok(None));
}

#[test]
fn next_argument_works() {
    expect_argument("", None);
    expect_argument("   ", None);
    expect_argument("r0", Some(Argument::Register(Register::R0)));
    expect_argument("   R3  Foo", Some(Argument::Register(Register::R3)));
    expect_argument("123", Some(Argument::Integer(123)));
    expect_argument("  123  ", Some(Argument::Integer(123)));
    expect_argument("123 Foo", Some(Argument::Integer(123)));
    expect_argument("0x-853", Some(Argument::Integer(-0x853)));
    expect_argument("Foo  ", Some(Argument::Label(label("Foo", 0))));
    expect_argument("Foo-23", Some(Argument::Label(label("Foo", -23))));
    expect_argument("  Foo 23", Some(Argument::Label(label("Foo", 0))));
}

#[test]
fn next_register_works() {
    expect_register("", None);
    expect_register("a", None);
    expect_register("rn", None);
    expect_register("r8", None);
    expect_register("R0n", None);
    expect_register("r0n", None);
    expect_register("r0", Some(Register::R0));
    expect_register("R7", Some(Register::R7));
}

#[test]
fn next_integer_token_works() {
    // Invalid or non-integers
    expect_integer(false, "", Ok(None)); // Non-integer
    expect_integer(false, "a", Ok(None));
    expect_integer(false, "z", Ok(None));
    expect_integer(false, "&", Ok(None));
    expect_integer(false, ",", Ok(None));
    expect_integer(false, "b2", Ok(None));
    expect_integer(false, "o8", Ok(None));
    expect_integer(false, "xg", Ok(None));
    expect_integer(false, "b", Ok(None));
    expect_integer(false, "o", Ok(None));
    expect_integer(false, "x", Ok(None));
    expect_integer_err(false, "-"); // Invalid integers
    expect_integer_err(false, "+");
    expect_integer_err(false, "#");
    expect_integer_err(false, "#-");
    expect_integer_err(false, "-#");
    expect_integer_err(false, "-#-");
    expect_integer_err(false, "-#-24");
    expect_integer_err(false, "0#0");
    expect_integer_err(false, "0#24");
    expect_integer_err(false, "-0#24");
    expect_integer_err(false, "0#-24");
    expect_integer_err(false, "-0#-24");
    expect_integer_err(false, "x-");
    expect_integer_err(false, "-x");
    expect_integer_err(false, "-x-");
    expect_integer_err(false, "-x-24");
    expect_integer_err(false, "0x");
    expect_integer_err(false, "0x-");
    expect_integer_err(false, "-0x");
    expect_integer_err(false, "-0x-");
    expect_integer_err(false, "-0x-24");
    expect_integer_err(false, "0-x24");
    expect_integer_err(false, "00x4");
    expect_integer_err(false, "##"); // Invalid digit for decimal base
    expect_integer_err(false, "-##");
    expect_integer_err(false, "#b");
    expect_integer_err(false, "#-b");
    expect_integer_err(false, "-#b");
    expect_integer_err(false, "0b2"); // Invalid digit for base
    expect_integer_err(false, "0o8");
    expect_integer_err(false, "0xg");
    expect_integer_err(false, "-b2");
    expect_integer_err(false, "-o8");
    expect_integer_err(false, "-xg");
    expect_integer_err(false, "b-2");
    expect_integer_err(false, "o-8");
    expect_integer_err(false, "x-g");
    expect_integer_err(false, "--4"); // Multiple sign characters
    expect_integer_err(false, "-+4");
    expect_integer_err(false, "++4");
    expect_integer_err(false, "+-4");
    expect_integer_err(false, "#--4");
    expect_integer_err(false, "#-+4");
    expect_integer_err(false, "#++4");
    expect_integer_err(false, "#+-4");
    expect_integer_err(false, "-#-4");
    expect_integer_err(false, "-#+4");
    expect_integer_err(false, "+#+4");
    expect_integer_err(false, "+#-4");
    expect_integer_err(false, "--#4");
    expect_integer_err(false, "-+#4");
    expect_integer_err(false, "++#4");
    expect_integer_err(false, "+-#4");
    expect_integer_err(true, "--4");
    expect_integer_err(true, "#--4");
    expect_integer_err(true, "+#-4");
    expect_integer_err(true, "+-#4");
    expect_integer_err(true, "#4"); // Missing sign character
    expect_integer_err(true, "x4");
    // Simple bounds check (it is not supposed to be super accurate)
    expect_integer_err(false, "x80000000");
    expect_integer(false, "x7fffffff", Ok(Some(0x7fffffff)));
    expect_integer(false, "x-7fffffff", Ok(Some(-0x7fffffff)));
    expect_integer_err(false, "x-80000000");
    // Decimal
    expect_integer(false, "0", Ok(Some(0)));
    expect_integer(false, "00", Ok(Some(0)));
    expect_integer(false, "#0", Ok(Some(0)));
    expect_integer(false, "#00", Ok(Some(0)));
    expect_integer(false, "-#0", Ok(Some(0)));
    expect_integer(false, "+#0", Ok(Some(0)));
    expect_integer(false, "-#00", Ok(Some(0)));
    expect_integer(false, "#-0", Ok(Some(0)));
    expect_integer(false, "#+0", Ok(Some(0)));
    expect_integer(false, "#-00", Ok(Some(0)));
    expect_integer(false, "4", Ok(Some(4)));
    expect_integer(false, "+4", Ok(Some(4)));
    expect_integer(false, "4284", Ok(Some(4284)));
    expect_integer(false, "004284", Ok(Some(4284)));
    expect_integer(false, "#4", Ok(Some(4)));
    expect_integer(false, "#4284", Ok(Some(4284)));
    expect_integer(false, "#004284", Ok(Some(4284)));
    expect_integer(false, "-4", Ok(Some(-4)));
    expect_integer(false, "+4", Ok(Some(4)));
    expect_integer(false, "-4284", Ok(Some(-4284)));
    expect_integer(false, "-004284", Ok(Some(-4284)));
    expect_integer(false, "-#4", Ok(Some(-4)));
    expect_integer(false, "+#4", Ok(Some(4)));
    expect_integer(false, "-#4284", Ok(Some(-4284)));
    expect_integer(false, "-#004284", Ok(Some(-4284)));
    expect_integer(false, "#-4", Ok(Some(-4)));
    expect_integer(false, "#+4", Ok(Some(4)));
    expect_integer(false, "#-4284", Ok(Some(-4284)));
    expect_integer(false, "#-004284", Ok(Some(-4284)));
    expect_integer(true, "-4", Ok(Some(-4)));
    expect_integer(true, "+4", Ok(Some(4)));
    expect_integer(true, "-4284", Ok(Some(-4284)));
    expect_integer(true, "-004284", Ok(Some(-4284)));
    expect_integer(true, "-#4", Ok(Some(-4)));
    expect_integer(true, "+#4", Ok(Some(4)));
    expect_integer(true, "-#4284", Ok(Some(-4284)));
    expect_integer(true, "-#004284", Ok(Some(-4284)));
    expect_integer(true, "#-4", Ok(Some(-4)));
    expect_integer(true, "#+4", Ok(Some(4)));
    expect_integer(true, "#-4284", Ok(Some(-4284)));
    expect_integer(true, "#-004284", Ok(Some(-4284)));
    expect_integer_err(true, "4");
    expect_integer_err(true, "4284");
    expect_integer_err(true, "004284");
    expect_integer_err(true, "#4");
    expect_integer_err(true, "#4284");
    expect_integer_err(true, "#004284");
    expect_integer_err(true, "#4");
    // Hex
    expect_integer(false, "x0", Ok(Some(0x0)));
    expect_integer(false, "x00", Ok(Some(0x0)));
    expect_integer(false, "0x0", Ok(Some(0x0)));
    expect_integer(false, "0x00", Ok(Some(0x0)));
    expect_integer(false, "-x0", Ok(Some(0x0)));
    expect_integer(false, "+x0", Ok(Some(0x0)));
    expect_integer(false, "-x00", Ok(Some(0x0)));
    expect_integer(false, "0x-0", Ok(Some(0x0)));
    expect_integer(false, "0x-00", Ok(Some(0x0)));
    expect_integer(false, "-0x0", Ok(Some(0x0)));
    expect_integer(false, "-0x00", Ok(Some(0x0)));
    expect_integer(false, "x4", Ok(Some(0x4)));
    expect_integer(false, "x004", Ok(Some(0x4)));
    expect_integer(false, "x429", Ok(Some(0x429)));
    expect_integer(false, "0x4", Ok(Some(0x4)));
    expect_integer(false, "0x004", Ok(Some(0x4)));
    expect_integer(false, "0x429", Ok(Some(0x429)));
    expect_integer(false, "-x4", Ok(Some(-0x4)));
    expect_integer(false, "+x4", Ok(Some(0x4)));
    expect_integer(false, "-x004", Ok(Some(-0x4)));
    expect_integer(false, "-x429", Ok(Some(-0x429)));
    expect_integer(false, "-0x4", Ok(Some(-0x4)));
    expect_integer(false, "+0x4", Ok(Some(0x4)));
    expect_integer(false, "-0x004", Ok(Some(-0x4)));
    expect_integer(false, "-0x429", Ok(Some(-0x429)));
    expect_integer(false, "x-4", Ok(Some(-0x4)));
    expect_integer(false, "x-004", Ok(Some(-0x4)));
    expect_integer(false, "x+004", Ok(Some(0x4)));
    expect_integer(false, "x-429", Ok(Some(-0x429)));
    expect_integer(false, "-0x4", Ok(Some(-0x4)));
    expect_integer(false, "-0x004", Ok(Some(-0x4)));
    expect_integer(false, "-0x429", Ok(Some(-0x429)));
    expect_integer(false, "+0x429", Ok(Some(0x429)));
    expect_integer(true, "-x4", Ok(Some(-0x4)));
    expect_integer(true, "+x4", Ok(Some(0x4)));
    expect_integer(true, "-x004", Ok(Some(-0x4)));
    expect_integer(true, "-x429", Ok(Some(-0x429)));
    expect_integer(true, "-0x4", Ok(Some(-0x4)));
    expect_integer(true, "+0x4", Ok(Some(0x4)));
    expect_integer(true, "-0x004", Ok(Some(-0x4)));
    expect_integer(true, "-0x429", Ok(Some(-0x429)));
    expect_integer(true, "x-4", Ok(Some(-0x4)));
    expect_integer(true, "x-004", Ok(Some(-0x4)));
    expect_integer(true, "x+004", Ok(Some(0x4)));
    expect_integer(true, "x-429", Ok(Some(-0x429)));
    expect_integer(true, "-0x4", Ok(Some(-0x4)));
    expect_integer(true, "-0x004", Ok(Some(-0x4)));
    expect_integer(true, "-0x429", Ok(Some(-0x429)));
    expect_integer(true, "+0x429", Ok(Some(0x429)));
    expect_integer_err(true, "x4");
    expect_integer_err(true, "x004");
    expect_integer_err(true, "x429");
    expect_integer_err(true, "0x4");
    expect_integer_err(true, "0x004");
    expect_integer_err(true, "0x429");
    expect_integer_err(true, "x4");
    expect_integer_err(true, "x004");
    expect_integer_err(true, "x429");
    expect_integer_err(true, "0x4");
    expect_integer_err(true, "0x004");
    expect_integer_err(true, "0x429");
    expect_integer_err(true, "0x429");
    // Octal (0o427==0x117)
    expect_integer(false, "o0", Ok(Some(0x0)));
    expect_integer(false, "o00", Ok(Some(0x0)));
    expect_integer(false, "0o0", Ok(Some(0x0)));
    expect_integer(false, "0o00", Ok(Some(0x0)));
    expect_integer(false, "-o0", Ok(Some(0x0)));
    expect_integer(false, "-o00", Ok(Some(0x0)));
    expect_integer(false, "o-0", Ok(Some(0x0)));
    expect_integer(false, "o-00", Ok(Some(0x0)));
    expect_integer(false, "-0o0", Ok(Some(0x0)));
    expect_integer(false, "-0o00", Ok(Some(0x0)));
    expect_integer(false, "0o-0", Ok(Some(0x0)));
    expect_integer(false, "0o-00", Ok(Some(0x0)));
    expect_integer(false, "o4", Ok(Some(0x4)));
    expect_integer(false, "o004", Ok(Some(0x4)));
    expect_integer(false, "o427", Ok(Some(0x117)));
    expect_integer(false, "0o4", Ok(Some(0x4)));
    expect_integer(false, "0o004", Ok(Some(0x4)));
    expect_integer(false, "0o427", Ok(Some(0x117)));
    expect_integer(false, "-o4", Ok(Some(-0x4)));
    expect_integer(false, "-o004", Ok(Some(-0x4)));
    expect_integer(false, "-o427", Ok(Some(-0x117)));
    expect_integer(false, "-0o4", Ok(Some(-0x4)));
    expect_integer(false, "-0o004", Ok(Some(-0x4)));
    expect_integer(false, "-0o427", Ok(Some(-0x117)));
    expect_integer(false, "o-4", Ok(Some(-0x4)));
    expect_integer(false, "o-004", Ok(Some(-0x4)));
    expect_integer(false, "o-427", Ok(Some(-0x117)));
    expect_integer(false, "0o-4", Ok(Some(-0x4)));
    expect_integer(false, "0o-004", Ok(Some(-0x4)));
    expect_integer(false, "0o-427", Ok(Some(-0x117)));
    // Binary
    expect_integer(false, "b0", Ok(Some(0b0)));
    expect_integer(false, "b00", Ok(Some(0b0)));
    expect_integer(false, "0b0", Ok(Some(0b0)));
    expect_integer(false, "0b00", Ok(Some(0b0)));
    expect_integer(false, "-b0", Ok(Some(0b0)));
    expect_integer(false, "-b00", Ok(Some(0b0)));
    expect_integer(false, "b-0", Ok(Some(0b0)));
    expect_integer(false, "b-00", Ok(Some(0b0)));
    expect_integer(false, "-0b0", Ok(Some(0b0)));
    expect_integer(false, "-0b00", Ok(Some(0b0)));
    expect_integer(false, "0b-0", Ok(Some(0b0)));
    expect_integer(false, "0b-00", Ok(Some(0b0)));
    expect_integer(false, "b1", Ok(Some(0b1)));
    expect_integer(false, "b101", Ok(Some(0b101)));
    expect_integer(false, "b00101", Ok(Some(0b101)));
    expect_integer(false, "0b1", Ok(Some(0b1)));
    expect_integer(false, "0b101", Ok(Some(0b101)));
    expect_integer(false, "0b00101", Ok(Some(0b101)));
    expect_integer(false, "-b1", Ok(Some(-0b1)));
    expect_integer(false, "-b101", Ok(Some(-0b101)));
    expect_integer(false, "-b00101", Ok(Some(-0b101)));
    expect_integer(false, "b-1", Ok(Some(-0b1)));
    expect_integer(false, "b-101", Ok(Some(-0b101)));
    expect_integer(false, "b-00101", Ok(Some(-0b101)));
    expect_integer(false, "-0b1", Ok(Some(-0b1)));
    expect_integer(false, "-0b101", Ok(Some(-0b101)));
    expect_integer(false, "-0b00101", Ok(Some(-0b101)));
    expect_integer(false, "0b-1", Ok(Some(-0b1)));
    expect_integer(false, "0b-101", Ok(Some(-0b101)));
    expect_integer(false, "0b-00101", Ok(Some(-0b101)));
}

#[test]
fn next_label_token_works() {
    expect_label("", None);
    expect_label("0x1283", None);
    expect_label("!@*)#", None);
    expect_label("0Foo", None);
    expect_label_err("Foo!");
    expect_label("F", Some(label("F", 0)));
    expect_label("Foo", Some(label("Foo", 0)));
    expect_label("_Foo", Some(label("_Foo", 0)));
    expect_label("F_oo12", Some(label("F_oo12", 0)));
    expect_label("Foo12_", Some(label("Foo12_", 0)));
    expect_label("Foo+0", Some(label("Foo", 0)));
    expect_label("Foo-0", Some(label("Foo", 0)));
    expect_label("Foo+4", Some(label("Foo", 4)));
    expect_label("Foo-43", Some(label("Foo", -43)));
    expect_label_err("Foo+");
    expect_label_err("Foo-");
    expect_label("Foo  ", Some(label("Foo", 0)));
    expect_label("Foo+4  ", Some(label("Foo", 4)));
    expect_label("Foo-4  !!", Some(label("Foo", -4)));
    expect_label_err("Foo+  ");
    expect_label_err("Foo-  ");
    expect_label("Foo -4", Some(label("Foo", 0)));
    expect_label("Foo +4", Some(label("Foo", 0)));
    expect_label("Foo+0x034", Some(label("Foo", 0x34)));
    expect_label("Foo-0o4", Some(label("Foo", -4)));
    expect_label("Foo-#24", Some(label("Foo", -24)));
    expect_label("Foo+#024", Some(label("Foo", 24)));
}
