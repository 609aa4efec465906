use lace::error::ValueError;
use lace::integer::{parse_integer, Radix};
use lace::parse::{int_as_i16, int_as_u16, parse_label, parse_pc_offset, parse_register};
use lace::command::Register;

#[test]
fn single_zero_and_refused_prefixes() {
    assert_eq!(parse_integer("0", false), Ok(Some(0)));
    assert!(parse_integer("00x4", false).is_err());
    assert!(parse_integer("0#4", false).is_err());
    assert_eq!(parse_integer("xLabel", false), Ok(None));
}

#[test]
fn largest_integer_and_overflow() {
    assert_eq!(parse_integer("x7fffffff", false), Ok(Some(0x7fffffff)));
    assert_eq!(
        parse_integer("x80000000", false),
        Err(ValueError::IntegerTooLarge { max: 0x7fff })
    );
    assert_eq!(parse_integer("2147483647", false), Ok(Some(2147483647)));
    assert_eq!(
        parse_integer("2147483648", false),
        Err(ValueError::IntegerTooLarge { max: 0x7fff })
    );
    assert_eq!(
        parse_integer("-2147483648", false),
        Err(ValueError::IntegerTooLarge { max: 0x7fff })
    );
    assert_eq!(parse_integer("-2147483647", false), Ok(Some(-2147483647)));
    assert_eq!(
        parse_integer("b11111111111111111111111111111111", false),
        Err(ValueError::IntegerTooLarge { max: 0x7fff })
    );
}

#[test]
fn overflow_comes_before_a_later_bad_digit() {
    assert_eq!(
        parse_integer("x800000000g", false),
        Err(ValueError::IntegerTooLarge { max: 0x7fff })
    );
    assert_eq!(parse_integer("x8000g0000", false), Err(ValueError::MalformedInteger));
}

#[test]
fn canonical_forms_parse_back_to_the_same_value() {
    let cases = [
        ("0x-853", "-x853"),
        ("+0o004", "+o004"),
        ("#-12", "-#12"),
        ("004284", "#004284"),
        ("b-101", "-b101"),
        ("0", "0"),
        ("-0", "0"),
    ];
    for (token, canonical) in cases {
        assert_eq!(
            parse_integer(token, false),
            parse_integer(canonical, false),
            "{} {}",
            token,
            canonical
        );
    }
    assert_eq!(parse_integer("x-4", true), parse_integer("-x4", true));
    assert_eq!(parse_integer("#+7", true), parse_integer("+#7", true));
}

#[test]
fn every_error_kind_has_an_input() {
    assert_eq!(parse_integer("--4", false), Err(ValueError::MalformedInteger));
    assert_eq!(parse_integer("#4", true), Err(ValueError::MalformedInteger));
    assert_eq!(parse_label("Foo!"), Err(ValueError::MalformedLabel));
    assert_eq!(parse_pc_offset("^a"), Err(ValueError::MalformedPCOffset));
    assert_eq!(parse_label("Foo+40000"), Err(ValueError::IntegerTooLarge { max: 0x7fff }));
    assert_eq!(int_as_u16(-1), Err(ValueError::IntegerTooLarge { max: 0xffff }));
    assert_eq!(int_as_u16(0x10000), Err(ValueError::IntegerTooLarge { max: 0xffff }));
    assert_eq!(int_as_u16(0xffff), Ok(0xffff));
    assert_eq!(int_as_i16(-0x8000), Ok(-0x8000));
    assert_eq!(int_as_i16(0x8000), Err(ValueError::IntegerTooLarge { max: 0x7fff }));
}

#[test]
fn digits_of_each_radix() {
    assert_eq!(Radix::Binary.parse_digit('1'), Some(1));
    assert_eq!(Radix::Binary.parse_digit('2'), None);
    assert_eq!(Radix::Octal.parse_digit('7'), Some(7));
    assert_eq!(Radix::Octal.parse_digit('8'), None);
    assert_eq!(Radix::Decimal.parse_digit('9'), Some(9));
    assert_eq!(Radix::Decimal.parse_digit('a'), None);
    assert_eq!(Radix::Hex.parse_digit('f'), Some(15));
    assert_eq!(Radix::Hex.parse_digit('A'), Some(10));
    assert_eq!(Radix::Hex.parse_digit('g'), None);
}

#[test]
fn registers_are_exactly_r0_to_r7() {
    assert_eq!(parse_register("r0"), Some(Register::R0));
    assert_eq!(parse_register("R7"), Some(Register::R7));
    assert_eq!(parse_register("r8"), None);
    assert_eq!(parse_register("R0n"), None);
    assert_eq!(parse_register("ra$"), None);
    assert_eq!(Register::R5.index(), 5);
}

#[test]
fn pc_offsets() {
    assert_eq!(parse_pc_offset("^"), Ok(Some(0)));
    assert_eq!(parse_pc_offset("^-x10"), Ok(Some(-0x10)));
    assert_eq!(parse_pc_offset("^4"), Ok(Some(4)));
    assert_eq!(parse_pc_offset("Foo"), Ok(None));
}
