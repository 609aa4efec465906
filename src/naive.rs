//! A cheap first guess at the type of an argument token.

use vstd::prelude::*;
use vstd::string::StrSliceExecFns;

use crate::integer::{sign_of, Radix};
use crate::label::{can_contain, can_start_with, label_char, label_start};

verus! {

/// 'Guessed' type of an argument.
///
/// A guess of [`NaiveType::Integer`] does not mean that the token is a valid
/// integer, only that it can be no other type (not a register, label or PC
/// offset): `"12a"` is guessed to be an integer, because a token that starts
/// with a decimal digit cannot be anything else.
///
/// The patterns, checked in this order:
///
/// - [`NaiveType::PCOffset`]: `^\^`
/// - [`NaiveType::Register`]: `^[rR][0-7]` not followed by a label character
/// - [`NaiveType::Integer`]: `^[-+#0-9]`, or `^[bB][-+]?[01]+$`, or
///   `^[oO][-+]?[0-7]+$`, or `^[xX][-+]?[0-9a-fA-F]+$`
/// - [`NaiveType::Label`]: `^[a-zA-Z_]`
///
/// No guess means that the token is likely invalid in every context. That must
/// not keep a caller from parsing the token for real; it only allows a better
/// message than a 'mismatched type'.
#[derive(Clone, Copy, Debug, PartialEq, Eq, Structural)]
pub enum NaiveType {
    Integer,
    Register,
    Label,
    PCOffset,
}

/// The radix that a letter prefix selects.
pub open spec fn letter_radix(ch: char) -> Option<Radix> {
    if ch == 'b' || ch == 'B' {
        Some(Radix::Binary)
    } else if ch == 'o' || ch == 'O' {
        Some(Radix::Octal)
    } else if ch == 'x' || ch == 'X' {
        Some(Radix::Hex)
    } else {
        None
    }
}

/// Whether `s` matches one of the integer patterns.
pub open spec fn looks_integer(s: Seq<char>) -> bool {
    s.len() > 0 && {
        let c = s[0];
        if c == '-' || c == '+' || c == '#' || Radix::Decimal.digit(c) is Some {
            true
        } else if let Some(radix) = letter_radix(c) {
            let start: int = if s.len() > 1 && sign_of(s[1]) is Some {
                2
            } else {
                1
            };
            start < s.len() && forall|j: int| start <= j < s.len() ==> (#[trigger] radix.digit(s[j])) is Some
        } else {
            false
        }
    }
}

/// Whether `s` matches the register pattern.
pub open spec fn looks_register(s: Seq<char>) -> bool {
    &&& s.len() >= 2
    &&& s[0] == 'r' || s[0] == 'R'
    &&& Radix::Octal.digit(s[1]) is Some
    &&& !(s.len() >= 3 && label_char(s[2]))
}

/// Whether `s` matches the label pattern.
pub open spec fn looks_label(s: Seq<char>) -> bool {
    s.len() > 0 && label_start(s[0])
}

/// Whether `s` matches the PC offset pattern.
pub open spec fn looks_pc_offset(s: Seq<char>) -> bool {
    s.len() > 0 && s[0] == '^'
}

/// The guess for `s`: the first pattern that matches, in the fixed order.
pub open spec fn classify(s: Seq<char>) -> Option<NaiveType> {
    if looks_pc_offset(s) {
        Some(NaiveType::PCOffset)
    } else if looks_register(s) {
        Some(NaiveType::Register)
    } else if looks_integer(s) {
        Some(NaiveType::Integer)
    } else if looks_label(s) {
        Some(NaiveType::Label)
    } else {
        None
    }
}

/// Integers are tried before labels: a token that matches both an integer
/// pattern and the label pattern (such as `"xaf"`) is guessed to be an
/// integer, never a label.
pub proof fn lemma_integer_before_label(s: Seq<char>)
    requires
        looks_integer(s),
        looks_label(s),
    ensures
        classify(s) == Some(NaiveType::Integer),
{
}

impl NaiveType {
    /// Guess the type of `string`, or `None` if it fits no pattern.
    pub fn classify(string: &str) -> (r: Option<NaiveType>)
        ensures
            r == classify(string@),
    {
        // Keep this order as documented at `NaiveType`: `Integer` must come
        // before `Label`, for prefixes written without a zero
        if Self::is_str_pc_offset(string) {
            return Some(NaiveType::PCOffset);
        }
        if Self::is_str_register(string) {
            return Some(NaiveType::Register);
        }
        if Self::is_str_integer(string) {
            return Some(NaiveType::Integer);
        }
        if Self::is_str_label(string) {
            return Some(NaiveType::Label);
        }
        None
    }

    /// A token that does not start with `[-+#0-9]` is checked whole, so that
    /// labels that start with `[bBoOxX]` are not taken for integers.
    fn is_str_integer(string: &str) -> (r: bool)
        ensures
            r == looks_integer(string@),
    {
        let len = string.unicode_len();
        if len == 0 {
            return false;
        }
        let c = string.get_char(0);
        if c == '-' || c == '+' || c == '#' || Radix::Decimal.parse_digit(c).is_some() {
            return true;
        }
        let radix = if c == 'b' || c == 'B' {
            Radix::Binary
        } else if c == 'o' || c == 'O' {
            Radix::Octal
        } else if c == 'x' || c == 'X' {
            Radix::Hex
        } else {
            return false;
        };
        let mut i: usize = 1;
        if len > 1 {
            let s = string.get_char(1);
            if s == '-' || s == '+' {
                i = 2;
            }
        }
        if i >= len {
            return false;
        }
        let start = i;
        while i < len
            invariant
                len == string@.len(),
                start <= i <= len,
                c == string@[0],
                !(c == '-' || c == '+' || c == '#' || Radix::Decimal.digit(c) is Some),
                letter_radix(c) == Some(radix),
                start == (if len > 1 && sign_of(string@[1]) is Some {
                    2int
                } else {
                    1int
                }),
                forall|j: int| start <= j < i ==> (#[trigger] radix.digit(string@[j])) is Some,
            decreases len - i,
        {
            if radix.parse_digit(string.get_char(i)).is_none() {
                return false;
            }
            i += 1;
        }
        true
    }

    fn is_str_register(string: &str) -> (r: bool)
        ensures
            r == looks_register(string@),
    {
        let len = string.unicode_len();
        if len < 2 {
            return false;
        }
        let c = string.get_char(0);
        (c == 'r' || c == 'R') && Radix::Octal.parse_digit(string.get_char(1)).is_some() && !(len >= 3
            && can_contain(string.get_char(2)))
    }

    fn is_str_label(string: &str) -> (r: bool)
        ensures
            r == looks_label(string@),
    {
        string.unicode_len() > 0 && can_start_with(string.get_char(0))
    }

    fn is_str_pc_offset(string: &str) -> (r: bool)
        ensures
            r == looks_pc_offset(string@),
    {
        string.unicode_len() > 0 && string.get_char(0) == '^'
    }

    /// The name of the type, for messages.
    pub fn as_str(&self) -> (r: &'static str)
        ensures
            r == self.name(),
    {
        match self {
            NaiveType::Integer => "integer",
            NaiveType::Register => "register",
            NaiveType::Label => "label",
            NaiveType::PCOffset => "PC offset",
        }
    }

    /// The name of the type.
    pub open spec fn name(self) -> &'static str {
        match self {
            NaiveType::Integer => "integer",
            NaiveType::Register => "register",
            NaiveType::Label => "label",
            NaiveType::PCOffset => "PC offset",
        }
    }
}

impl<'a> TryFrom<&'a str> for NaiveType {
    type Error = ();

    fn try_from(string: &'a str) -> (r: Result<Self, Self::Error>) {
        match NaiveType::classify(string) {
            Some(t) => Ok(t),
            None => Err(()),
        }
    }
}

impl<'a> vstd::std_specs::convert::TryFromSpecImpl<&'a str> for NaiveType {
    open spec fn obeys_try_from_spec() -> bool {
        true
    }

    open spec fn try_from_spec(string: &'a str) -> Result<Self, Self::Error> {
        match classify(string@) {
            Some(t) => Ok(t),
            None => Err(()),
        }
    }
}

} // verus!
