//! The integer grammar of the command language.

use vstd::prelude::*;
use vstd::string::StrSliceExecFns;

use crate::error::ValueError;

verus! {

/// The sign of an integer, written `+` or `-`.
#[derive(Clone, Copy, Debug, PartialEq, Eq, Structural)]
pub enum Sign {
    Positive,
    Negative,
}

/// A numeral base, chosen by a prefix character (or its absence).
#[derive(Clone, Copy, Debug, PartialEq, Eq, Structural)]
pub enum Radix {
    Binary,
    Octal,
    Decimal,
    Hex,
}

impl Radix {
    /// The base as a number.
    pub open spec fn base(self) -> int {
        match self {
            Radix::Binary => 2,
            Radix::Octal => 8,
            Radix::Decimal => 10,
            Radix::Hex => 16,
        }
    }

    /// The value of `ch` as a digit of this radix, if it is one.
    pub open spec fn digit(self, ch: char) -> Option<u8> {
        let c = ch as u32;
        match self {
            Radix::Binary => if 48 <= c <= 49 { Some((c - 48) as u8) } else { None },
            Radix::Octal => if 48 <= c <= 55 { Some((c - 48) as u8) } else { None },
            Radix::Decimal => if 48 <= c <= 57 { Some((c - 48) as u8) } else { None },
            Radix::Hex => if 48 <= c <= 57 {
                Some((c - 48) as u8)
            } else if 97 <= c <= 102 {
                Some((c - 87) as u8)
            } else if 65 <= c <= 70 {
                Some((c - 55) as u8)
            } else {
                None
            },
        }
    }

    /// The base as a machine integer.
    pub fn base_i32(&self) -> (r: i32)
        ensures
            r as int == self.base(),
    {
        match self {
            Radix::Binary => 2,
            Radix::Octal => 8,
            Radix::Decimal => 10,
            Radix::Hex => 16,
        }
    }

    /// Parse a single digit in this radix.
    pub fn parse_digit(&self, ch: char) -> (r: Option<u8>)
        ensures
            r == self.digit(ch),
    {
        let c = ch as u32;
        match self {
            Radix::Binary => if c == '0' as u32 || c == '1' as u32 {
                Some((c - '0' as u32) as u8)
            } else {
                None
            },
            Radix::Octal => if '0' as u32 <= c && c <= '7' as u32 {
                Some((c - '0' as u32) as u8)
            } else {
                None
            },
            Radix::Decimal => if '0' as u32 <= c && c <= '9' as u32 {
                Some((c - '0' as u32) as u8)
            } else {
                None
            },
            Radix::Hex => if '0' as u32 <= c && c <= '9' as u32 {
                Some((c - '0' as u32) as u8)
            } else if 'a' as u32 <= c && c <= 'f' as u32 {
                Some((c - 'a' as u32 + 10) as u8)
            } else if 'A' as u32 <= c && c <= 'F' as u32 {
                Some((c - 'A' as u32 + 10) as u8)
            } else {
                None
            },
        }
    }
}

/// The sign that `ch` writes, if it is a sign character.
pub open spec fn sign_of(ch: char) -> Option<Sign> {
    if ch == '+' {
        Some(Sign::Positive)
    } else if ch == '-' {
        Some(Sign::Negative)
    } else {
        None
    }
}

/// The sign written at position `at` of `s`, if there is one.
pub open spec fn sign_at(s: Seq<char>, at: int) -> Option<Sign> {
    if 0 <= at < s.len() {
        sign_of(s[at])
    } else {
        None
    }
}

/// Position after an optional sign at `at`.
pub open spec fn after_sign(s: Seq<char>, at: int) -> int {
    if sign_at(s, at) is Some {
        at + 1
    } else {
        at
    }
}

/// Syntax information kept from reading an integer's prefix.
#[derive(Clone, Copy, Debug, PartialEq, Eq, Structural)]
pub struct Prefix {
    /// Radix that the prefix character selects.
    pub radix: Radix,
    /// Whether the prefix character follows a zero.
    pub leading_zeros: bool,
    /// Whether the prefix character is the symbol `#`.
    pub non_alpha: bool,
}

/// What reading a prefix found: like `Option<Prefix>`, with the lone `"0"` apart.
#[derive(Clone, Copy, Debug, PartialEq, Eq, Structural)]
pub enum PrefixResult {
    /// An integer with an explicit or implicit prefix follows.
    Integer(Prefix),
    /// The token is exactly one zero, after an optional sign.
    SingleZero,
    /// The token is not an integer, though it may still be valid as something else.
    NonInteger,
}

/// Reading an optional zero and an optional radix prefix at `at`: the result,
/// and the position after what was read.
pub open spec fn prefix_at(s: Seq<char>, at: int) -> Result<(PrefixResult, int), ValueError> {
    let zero = 0 <= at < s.len() && s[at] == '0';
    let q = if zero {
        at + 1
    } else {
        at
    };
    if 0 <= q < s.len() {
        let c = s[q];
        if c == 'b' || c == 'B' {
            Ok((PrefixResult::Integer(Prefix { radix: Radix::Binary, leading_zeros: zero, non_alpha: false }), q + 1))
        } else if c == 'x' || c == 'X' {
            Ok((PrefixResult::Integer(Prefix { radix: Radix::Hex, leading_zeros: zero, non_alpha: false }), q + 1))
        } else if c == 'o' || c == 'O' {
            Ok((PrefixResult::Integer(Prefix { radix: Radix::Octal, leading_zeros: zero, non_alpha: false }), q + 1))
        } else if c == '#' {
            if zero {
                Err(ValueError::MalformedInteger)
            } else {
                Ok((PrefixResult::Integer(Prefix { radix: Radix::Decimal, leading_zeros: false, non_alpha: true }), q + 1))
            }
        } else if Radix::Decimal.digit(c) is Some {
            Ok((PrefixResult::Integer(Prefix { radix: Radix::Decimal, leading_zeros: zero, non_alpha: false }), q))
        } else if sign_of(c) is Some {
            Err(ValueError::MalformedInteger)
        } else {
            Ok((PrefixResult::NonInteger, q))
        }
    } else if zero {
        Ok((PrefixResult::SingleZero, q))
    } else {
        Ok((PrefixResult::NonInteger, q))
    }
}

/// How the integer grammar reads a token, before its digits are evaluated.
pub enum Scan {
    /// The token cannot be an integer; it may be something else.
    NotInteger,
    /// The token is an integer written wrongly.
    Malformed,
    /// The token is a lone zero, after an optional sign.
    SingleZero,
    /// A sign, a radix and the characters that must be its digits.
    Digits { sign: Option<Sign>, radix: Radix, digits: Seq<char> },
}

/// The grammar's reading of `s`: an optional sign, at most one zero, an
/// optional radix prefix, an optional sign, then at least one digit. Exactly
/// one sign may be written, on either side of the prefix.
pub open spec fn scan_integer(s: Seq<char>, require_sign: bool) -> Scan {
    let first = sign_at(s, 0);
    match prefix_at(s, after_sign(s, 0)) {
        Err(_) => Scan::Malformed,
        Ok((PrefixResult::SingleZero, _)) => Scan::SingleZero,
        Ok((PrefixResult::NonInteger, _)) => if first is Some {
            Scan::Malformed
        } else {
            Scan::NotInteger
        },
        Ok((PrefixResult::Integer(prefix), p)) => {
            let second = sign_at(s, p);
            let d = after_sign(s, p);
            let sign = if first is Some {
                first
            } else {
                second
            };
            if first is Some && second is Some {
                Scan::Malformed
            } else if sign is None && require_sign {
                Scan::Malformed
            } else if d >= s.len() || prefix.radix.digit(s[d]) is None {
                if sign is Some || prefix.leading_zeros || prefix.non_alpha {
                    Scan::Malformed
                } else {
                    Scan::NotInteger
                }
            } else {
                Scan::Digits { sign, radix: prefix.radix, digits: s.subrange(d, s.len() as int) }
            }
        },
    }
}

/// How many characters at the start of `ds` are digits of `radix`.
pub open spec fn digit_run(radix: Radix, ds: Seq<char>) -> nat
    decreases ds.len(),
{
    if ds.len() > 0 && radix.digit(ds[0]) is Some {
        1 + digit_run(radix, ds.drop_first())
    } else {
        0
    }
}

/// The value of the digits `ds` in `radix`, most significant first.
pub open spec fn digits_value(radix: Radix, ds: Seq<char>) -> int
    decreases ds.len(),
{
    if ds.len() == 0 {
        0
    } else {
        digits_value(radix, ds.drop_last()) * radix.base() + radix.digit(ds.last())->0 as int
    }
}

/// The value with its sign applied.
pub open spec fn signed(sign: Option<Sign>, value: int) -> int {
    if sign == Some(Sign::Negative) {
        -value
    } else {
        value
    }
}

/// The largest magnitude that the integer grammar reads.
pub const INTEGER_MAX: i32 = 0x7fff_ffff;

/// What the integer grammar makes of a token: `Ok(None)` when it is not an
/// integer, `Ok(Some(n))` for an integer, and an error for a malformed one or
/// one whose digits exceed the largest `i32`.
pub open spec fn integer_value(s: Seq<char>, require_sign: bool) -> Result<Option<i32>, ValueError> {
    match scan_integer(s, require_sign) {
        Scan::NotInteger => Ok(None),
        Scan::Malformed => Err(ValueError::MalformedInteger),
        Scan::SingleZero => Ok(Some(0)),
        Scan::Digits { sign, radix, digits } => {
            let k = digit_run(radix, digits);
            let v = digits_value(radix, digits.take(k as int));
            if v > INTEGER_MAX {
                Err(ValueError::IntegerTooLarge { max: 0x7fff })
            } else if k < digits.len() {
                Err(ValueError::MalformedInteger)
            } else {
                Ok(Some(signed(sign, v) as i32))
            }
        },
    }
}

proof fn lemma_digit_run_exact(radix: Radix, ds: Seq<char>, k: int)
    requires
        0 <= k <= ds.len(),
        forall|j: int| 0 <= j < k ==> (#[trigger] radix.digit(ds[j])) is Some,
        k == ds.len() || radix.digit(ds[k]) is None,
    ensures
        digit_run(radix, ds) == k,
    decreases k,
{
    if k > 0 {
        let rest = ds.drop_first();
        assert forall|j: int| 0 <= j < k - 1 implies (#[trigger] radix.digit(rest[j])) is Some by {
            assert(rest[j] == ds[j + 1]);
        }
        if k < ds.len() {
            assert(rest[k - 1] == ds[k]);
        }
        lemma_digit_run_exact(radix, rest, k - 1);
    }
}

proof fn lemma_digits_value_nonneg(radix: Radix, ds: Seq<char>)
    ensures
        digits_value(radix, ds) >= 0,
    decreases ds.len(),
{
    if ds.len() > 0 {
        lemma_digits_value_nonneg(radix, ds.drop_last());
        let v = digits_value(radix, ds.drop_last());
        assert(v * radix.base() >= 0) by (nonlinear_arith)
            requires
                v >= 0,
                radix.base() >= 2,
        ;
    }
}

/// Adding digits never makes a value smaller.
proof fn lemma_digits_value_grows(radix: Radix, ds: Seq<char>, j: int)
    requires
        0 <= j <= ds.len(),
    ensures
        digits_value(radix, ds.take(j)) <= digits_value(radix, ds),
    decreases ds.len() - j,
{
    if j < ds.len() {
        let shorter = ds.drop_last();
        assert(shorter.take(j) =~= ds.take(j));
        lemma_digits_value_grows(radix, shorter, j);
        lemma_digits_value_nonneg(radix, shorter);
        let v = digits_value(radix, shorter);
        assert(v <= v * radix.base()) by (nonlinear_arith)
            requires
                v >= 0,
                radix.base() >= 2,
        ;
    } else {
        assert(ds.take(j) =~= ds);
    }
}

/// The character that writes `sign`.
pub open spec fn sign_char(sign: Sign) -> char {
    match sign {
        Sign::Positive => '+',
        Sign::Negative => '-',
    }
}

/// The prefix character that selects `radix`.
pub open spec fn prefix_char(radix: Radix) -> char {
    match radix {
        Radix::Binary => 'b',
        Radix::Octal => 'o',
        Radix::Decimal => '#',
        Radix::Hex => 'x',
    }
}

/// The canonical spelling of an integer: its sign if any, its prefix
/// character, then its digits.
pub open spec fn canonical(sign: Option<Sign>, radix: Radix, digits: Seq<char>) -> Seq<char> {
    let head = match sign {
        Some(sg) => seq![sign_char(sg)],
        None => Seq::<char>::empty(),
    };
    head + seq![prefix_char(radix)] + digits
}

/// What the grammar read in `s`, written out again in canonical form: the
/// lone zero stays `"0"`, and any other integer becomes sign, prefix, digits.
pub open spec fn reserialize(s: Seq<char>, require_sign: bool) -> Seq<char> {
    match scan_integer(s, require_sign) {
        Scan::SingleZero => seq!['0'],
        Scan::Digits { sign, radix, digits } => canonical(sign, radix, digits),
        _ => s,
    }
}

/// Round trip on canonical forms: for every token that the grammar accepts
/// under a sign requirement, writing the parsed sign, radix and digits out in
/// canonical form and parsing that again gives the same integer.
pub proof fn lemma_round_trip(s: Seq<char>, require_sign: bool)
    requires
        integer_value(s, require_sign) matches Ok(Some(_)),
    ensures
        integer_value(reserialize(s, require_sign), require_sign) == integer_value(s, require_sign),
{
    match scan_integer(s, require_sign) {
        Scan::SingleZero => {
            let t = seq!['0'];
            assert(prefix_at(t, 0) == Ok::<(PrefixResult, int), ValueError>((PrefixResult::SingleZero, 1)));
        },
        Scan::Digits { sign, radix, digits } => {
            let t = canonical(sign, radix, digits);
            let at_prefix: int = if sign is Some {
                1
            } else {
                0
            };
            assert(t[at_prefix] == prefix_char(radix));
            assert(sign_at(t, 0) == sign);
            assert(after_sign(t, 0) == at_prefix);
            let prefix = match radix {
                Radix::Decimal => Prefix { radix, leading_zeros: false, non_alpha: true },
                _ => Prefix { radix, leading_zeros: false, non_alpha: false },
            };
            assert(prefix_at(t, at_prefix) == Ok::<(PrefixResult, int), ValueError>((PrefixResult::Integer(prefix), at_prefix + 1)));
            assert(t[at_prefix + 1] == digits[0]);
            assert(sign_at(t, at_prefix + 1) is None);
            assert(t.subrange(at_prefix + 1, t.len() as int) =~= digits);
            assert(scan_integer(t, require_sign) == (Scan::Digits { sign, radix, digits }));
        },
        _ => {},
    }
}

/// Consume an optional sign character at `at`.
fn take_sign(s: &str, len: usize, at: usize) -> (r: (Option<Sign>, usize))
    requires
        len == s@.len(),
        at <= len,
    ensures
        r.0 == sign_at(s@, at as int),
        r.1 == after_sign(s@, at as int),
{
    if at < len {
        let ch = s.get_char(at);
        if ch == '+' {
            return (Some(Sign::Positive), at + 1);
        } else if ch == '-' {
            return (Some(Sign::Negative), at + 1);
        }
    }
    (None, at)
}

/// Consume at most one leading zero and an optional radix prefix at `at`.
fn take_prefix(s: &str, len: usize, at: usize) -> (r: Result<(PrefixResult, usize), ValueError>)
    requires
        len == s@.len(),
        at <= len,
    ensures
        r matches Ok((p, q)) ==> prefix_at(s@, at as int) == Ok::<(PrefixResult, int), ValueError>((p, q as int)),
        r matches Err(e) ==> prefix_at(s@, at as int) == Err::<(PrefixResult, int), ValueError>(e),
{
    // Only one leading zero is taken, so "00x..." is refused
    let leading_zeros = at < len && s.get_char(at) == '0';
    let q = if leading_zeros {
        at + 1
    } else {
        at
    };
    if q < len {
        let c = s.get_char(q);
        let radix = if c == 'b' || c == 'B' {
            Radix::Binary
        } else if c == 'x' || c == 'X' {
            Radix::Hex
        } else if c == 'o' || c == 'O' {
            Radix::Octal
        } else if c == '#' {
            // "0#..." is refused
            if leading_zeros {
                return Err(ValueError::MalformedInteger);
            }
            return Ok((PrefixResult::Integer(Prefix { radix: Radix::Decimal, leading_zeros: false, non_alpha: true }), q + 1));
        } else if Radix::Decimal.parse_digit(c).is_some() {
            // No prefix: the digit is left for the caller
            return Ok((PrefixResult::Integer(Prefix { radix: Radix::Decimal, leading_zeros, non_alpha: false }), q));
        } else if c == '-' || c == '+' {
            // A legal sign before the prefix was already consumed: "0-...", "--..." are refused
            return Err(ValueError::MalformedInteger);
        } else {
            return Ok((PrefixResult::NonInteger, q));
        };
        Ok((PrefixResult::Integer(Prefix { radix, leading_zeros, non_alpha: false }), q + 1))
    } else if leading_zeros {
        Ok((PrefixResult::SingleZero, q))
    } else {
        Ok((PrefixResult::NonInteger, q))
    }
}

/// Parse a token as an integer under the liberal multi-radix grammar.
///
/// Accepts decimal (optionally `#`), hex (`x`/`X`), octal (`o`/`O`) and binary
/// (`b`/`B`); one optional zero before an alphabetic prefix; leading zeros
/// after the prefix; one sign, before or after the prefix. Returns `Ok(None)`
/// when the token cannot be an integer, and an error when it is a malformed
/// one or its digits exceed `i32`. With `require_sign`, a missing sign is an
/// error.
pub fn parse_integer(string: &str, require_sign: bool) -> (r: Result<Option<i32>, ValueError>)
    ensures
        r == integer_value(string@, require_sign),
{
    let len = string.unicode_len();
    let ghost s = string@;
    // Sign before the prefix
    let (first_sign, at_prefix) = take_sign(string, len, 0);
    let prefix = match take_prefix(string, len, at_prefix) {
        Err(e) => return Err(e),
        Ok((PrefixResult::SingleZero, _)) => return Ok(Some(0)),
        Ok((PrefixResult::NonInteger, _)) => {
            // A sign was given, so this is a broken integer rather than another kind of token
            if first_sign.is_some() {
                return Err(ValueError::MalformedInteger);
            }
            return Ok(None);
        },
        Ok((PrefixResult::Integer(prefix), after_prefix)) => (prefix, after_prefix),
    };
    let (prefix, after_prefix) = prefix;
    // Sign after the prefix
    let (second_sign, start) = take_sign(string, len, after_prefix);
    let sign = match (first_sign, second_sign) {
        (Some(sign), None) => Some(sign),
        (None, Some(sign)) => Some(sign),
        (None, None) => {
            if require_sign {
                return Err(ValueError::MalformedInteger);
            }
            None
        },
        (Some(_), Some(_)) => return Err(ValueError::MalformedInteger),
    };
    // The first digit decides between a broken integer and another kind of token
    if start >= len || prefix.radix.parse_digit(string.get_char(start)).is_none() {
        if sign.is_some() || prefix.leading_zeros || prefix.non_alpha {
            return Err(ValueError::MalformedInteger);
        }
        return Ok(None);
    }
    let ghost digits = s.subrange(start as int, len as int);
    let radix = prefix.radix;
    assert(scan_integer(s, require_sign) == Scan::Digits { sign, radix, digits });
    let base = radix.base_i32();
    let mut integer: i32 = 0;
    let mut i: usize = start;
    while i < len
        invariant
            s == string@,
            len == s.len(),
            start <= i <= len,
            digits == s.subrange(start as int, len as int),
            scan_integer(s, require_sign) == (Scan::Digits { sign, radix, digits }),
            base as int == radix.base(),
            forall|j: int| 0 <= j < i - start ==> (#[trigger] radix.digit(digits[j])) is Some,
            integer as int == digits_value(radix, digits.take(i - start)),
            0 <= integer <= INTEGER_MAX,
        decreases len - i,
    {
        let ghost k = i - start;
        assert(digits[k] == s[i as int]);
        let digit = match radix.parse_digit(string.get_char(i)) {
            Some(d) => d,
            None => {
                proof {
                    lemma_digit_run_exact(radix, digits, k);
                }
                return Err(ValueError::MalformedInteger);
            },
        };
        assert(digits.take(k + 1).drop_last() =~= digits.take(k));
        assert(digits.take(k + 1).last() == digits[k]);
        if integer > (INTEGER_MAX - digit as i32) / base {
            proof {
                let d = digit as int;
                let b = base as int;
                let n = integer as int;
                assert(n * b + d > INTEGER_MAX) by (nonlinear_arith)
                    requires
                        n > (INTEGER_MAX - d) / b,
                        b >= 2,
                        0 <= d,
                ;
                // every digit up to the end of the run only adds to the value
                let run = digit_run(radix, digits) as int;
                assert forall|j: int| 0 <= j < k + 1 implies (#[trigger] radix.digit(digits[j])) is Some by {
                }
                lemma_run_covers(radix, digits, k + 1);
                lemma_digit_run_bound(radix, digits);
                lemma_digits_value_grows(radix, digits.take(run), k + 1);
                assert(digits.take(run).take(k + 1) =~= digits.take(k + 1));
            }
            return Err(ValueError::IntegerTooLarge { max: 0x7fff });
        }
        proof {
            let d = digit as int;
            let b = base as int;
            let n = integer as int;
            assert(n * b + d <= INTEGER_MAX) by (nonlinear_arith)
                requires
                    n <= (INTEGER_MAX - d) / b,
                    b >= 2,
                    0 <= d,
                    d <= INTEGER_MAX,
            ;
            assert(n * b + d >= 0) by (nonlinear_arith)
                requires
                    n >= 0,
                    b >= 2,
                    0 <= d,
            ;
        }
        integer = integer * base + digit as i32;
        i += 1;
    }
    proof {
        lemma_digit_run_exact(radix, digits, digits.len() as int);
        assert(digits.take(digits.len() as int) =~= digits);
    }
    match sign {
        Some(Sign::Negative) => Ok(Some(-integer)),
        _ => Ok(Some(integer)),
    }
}

proof fn lemma_digit_run_bound(radix: Radix, ds: Seq<char>)
    ensures
        digit_run(radix, ds) <= ds.len(),
    decreases ds.len(),
{
    if ds.len() > 0 {
        lemma_digit_run_bound(radix, ds.drop_first());
    }
}

/// A run of `n` valid digits lies within the digit run.
proof fn lemma_run_covers(radix: Radix, ds: Seq<char>, n: int)
    requires
        0 <= n <= ds.len(),
        forall|j: int| 0 <= j < n ==> (#[trigger] radix.digit(ds[j])) is Some,
    ensures
        n <= digit_run(radix, ds),
    decreases n,
{
    if n > 0 {
        let rest = ds.drop_first();
        assert forall|j: int| 0 <= j < n - 1 implies (#[trigger] radix.digit(rest[j])) is Some by {
            assert(rest[j] == ds[j + 1]);
        }
        lemma_run_covers(radix, rest, n - 1);
    }
}

} // verus!
