//! Reading a command line: splitting it into tokens and typing each token as
//! a register, integer, label or PC offset.

use vstd::prelude::*;
use vstd::string::StrSliceExecFns;

use crate::command::{Argument, ArgumentView, Label, Location, LocationView, MemoryLocation, Register};
use crate::error::{ArgumentError, ArgumentErrorView, ValueError};
use crate::integer::{integer_value, parse_integer};
use crate::label::{can_contain, can_start_with, label_char, label_start};
use crate::naive::{classify, NaiveType};

verus! {

/// `n` as an `i16`, or the error for a value too large for one.
pub open spec fn as_i16(n: i32) -> Result<i16, ValueError> {
    if -0x8000 <= n <= 0x7fff {
        Ok(n as i16)
    } else {
        Err(ValueError::IntegerTooLarge { max: 0x7fff })
    }
}

/// `n` as a `u16`, or the error for a value that does not fit one.
pub open spec fn as_u16(n: i32) -> Result<u16, ValueError> {
    if 0 <= n <= 0xffff {
        Ok(n as u16)
    } else {
        Err(ValueError::IntegerTooLarge { max: 0xffff })
    }
}

/// Try to convert an `i32` into `i16`.
pub fn int_as_i16(integer: i32) -> (r: Result<i16, ValueError>)
    ensures
        r == as_i16(integer),
{
    if -0x8000 <= integer && integer <= 0x7fff {
        Ok(integer as i16)
    } else {
        Err(ValueError::IntegerTooLarge { max: 0x7fff })
    }
}

/// Try to convert an `i32` into `u16`.
pub fn int_as_u16(integer: i32) -> (r: Result<u16, ValueError>)
    ensures
        r == as_u16(integer),
{
    if 0 <= integer && integer <= 0xffff {
        Ok(integer as u16)
    } else {
        Err(ValueError::IntegerTooLarge { max: 0xffff })
    }
}

// ---------------------------------------------------------------------------
// Tokens

/// The first position at or after `i` that does not hold a space.
pub open spec fn skip_spaces(s: Seq<char>, i: int) -> int
    decreases s.len() - i,
{
    if 0 <= i < s.len() && s[i] == ' ' {
        skip_spaces(s, i + 1)
    } else {
        i
    }
}

/// Whether `ch` ends a token.
pub open spec fn ends_token(ch: char) -> bool {
    ch == ' '
}

/// Whether `s` holds no semicolon and no newline: those split a line into
/// commands before it is read, and a line that still holds one is a caller's
/// mistake.
pub open spec fn single_command(s: Seq<char>) -> bool {
    forall|i: int| 0 <= i < s.len() ==> s[i] != ';' && s[i] != '\n'
}

/// The first position at or after `i` that ends a token.
pub open spec fn token_end(s: Seq<char>, i: int) -> int
    decreases s.len() - i,
{
    if 0 <= i < s.len() && !ends_token(s[i]) {
        token_end(s, i + 1)
    } else {
        i
    }
}

/// Start and end of the next token at or after `cursor`: leading spaces are
/// skipped, and the token runs up to a space or the end.
pub open spec fn token_bounds(s: Seq<char>, cursor: int) -> Option<(int, int)> {
    let a = skip_spaces(s, cursor);
    let b = token_end(s, a);
    if a < b {
        Some((a, b))
    } else {
        None
    }
}

/// The next token at or after `cursor`, if there is one.
pub open spec fn token_at(s: Seq<char>, cursor: int) -> Option<Seq<char>> {
    match token_bounds(s, cursor) {
        Some((a, b)) => Some(s.subrange(a, b)),
        None => None,
    }
}

/// Where the cursor stands after taking the next token (unmoved if there is none).
pub open spec fn after_token(s: Seq<char>, cursor: int) -> int {
    match token_bounds(s, cursor) {
        Some((_, b)) => b,
        None => cursor,
    }
}

proof fn lemma_skip_spaces(s: Seq<char>, i: int)
    requires
        0 <= i <= s.len(),
    ensures
        i <= skip_spaces(s, i) <= s.len(),
    decreases s.len() - i,
{
    if i < s.len() && s[i] == ' ' {
        lemma_skip_spaces(s, i + 1);
    }
}

proof fn lemma_token_end(s: Seq<char>, i: int)
    requires
        0 <= i <= s.len(),
    ensures
        i <= token_end(s, i) <= s.len(),
    decreases s.len() - i,
{
    if i < s.len() && !ends_token(s[i]) {
        lemma_token_end(s, i + 1);
    }
}

proof fn lemma_token_bounds(s: Seq<char>, cursor: int)
    requires
        0 <= cursor <= s.len(),
    ensures
        token_bounds(s, cursor) matches Some((a, b)) ==> cursor <= a < b <= s.len(),
        cursor <= after_token(s, cursor) <= s.len(),
{
    lemma_skip_spaces(s, cursor);
    lemma_token_end(s, skip_spaces(s, cursor));
}

fn find_token(s: &str, len: usize, cursor: usize) -> (r: Option<(usize, usize)>)
    requires
        len == s@.len(),
        cursor <= len,
    ensures
        r matches Some((a, b)) ==> token_bounds(s@, cursor as int) == Some((a as int, b as int)),
        r is None ==> token_bounds(s@, cursor as int) is None,
{
    let mut a = cursor;
    while a < len && s.get_char(a) == ' '
        invariant
            len == s@.len(),
            cursor <= a <= len,
            skip_spaces(s@, cursor as int) == skip_spaces(s@, a as int),
        decreases len - a,
    {
        a += 1;
    }
    let mut b = a;
    while b < len && s.get_char(b) != ' '
        invariant
            len == s@.len(),
            a <= b <= len,
            a == skip_spaces(s@, cursor as int),
            token_end(s@, a as int) == token_end(s@, b as int),
        decreases len - b,
    {
        b += 1;
    }
    if a < b {
        Some((a, b))
    } else {
        None
    }
}

// ---------------------------------------------------------------------------
// Typing single tokens

/// The register that `t` names: `r` or `R`, then a digit 0 to 7, and nothing more.
pub open spec fn register_of(t: Seq<char>) -> Option<Register> {
    if t.len() == 2 && (t[0] == 'r' || t[0] == 'R') {
        let c = t[1];
        if c == '0' {
            Some(Register::R0)
        } else if c == '1' {
            Some(Register::R1)
        } else if c == '2' {
            Some(Register::R2)
        } else if c == '3' {
            Some(Register::R3)
        } else if c == '4' {
            Some(Register::R4)
        } else if c == '5' {
            Some(Register::R5)
        } else if c == '6' {
            Some(Register::R6)
        } else if c == '7' {
            Some(Register::R7)
        } else {
            None
        }
    } else {
        None
    }
}

/// Parse a register name; anything after the digit makes it no register
/// (it may be the start of a label).
pub fn parse_register(string: &str) -> (r: Option<Register>)
    ensures
        r == register_of(string@),
{
    if string.unicode_len() != 2 {
        return None;
    }
    let first = string.get_char(0);
    if !(first == 'r' || first == 'R') {
        return None;
    }
    let c = string.get_char(1);
    if c == '0' {
        Some(Register::R0)
    } else if c == '1' {
        Some(Register::R1)
    } else if c == '2' {
        Some(Register::R2)
    } else if c == '3' {
        Some(Register::R3)
    } else if c == '4' {
        Some(Register::R4)
    } else if c == '5' {
        Some(Register::R5)
    } else if c == '6' {
        Some(Register::R6)
    } else if c == '7' {
        Some(Register::R7)
    } else {
        None
    }
}

/// The first position at or after `i` that holds no label character.
pub open spec fn label_end(s: Seq<char>, i: int) -> int
    decreases s.len() - i,
{
    if 0 <= i < s.len() && label_char(s[i]) {
        label_end(s, i + 1)
    } else {
        i
    }
}

/// A label with an optional offset: a name of label characters that starts
/// with a letter or underscore, then nothing or a signed integer. `Ok(None)`
/// when `t` cannot start a label.
pub open spec fn label_of(t: Seq<char>) -> Result<Option<(Seq<char>, i16)>, ValueError> {
    if t.len() == 0 || !label_start(t[0]) {
        Ok(None)
    } else {
        let n = label_end(t, 1);
        let name = t.subrange(0, n);
        if n == t.len() {
            Ok(Some((name, 0)))
        } else {
            match integer_value(t.subrange(n, t.len() as int), true) {
                Err(e) => Err(e),
                Ok(None) => Err(ValueError::MalformedLabel),
                Ok(Some(v)) => match as_i16(v) {
                    Ok(offset) => Ok(Some((name, offset))),
                    Err(e) => Err(e),
                },
            }
        }
    }
}

/// Parse a label with an optional signed offset, such as `Foo`, `Foo+4` or `Foo-0x10`.
pub fn parse_label(string: &str) -> (r: Result<Option<Label>, ValueError>)
    ensures
        match label_of(string@) {
            Ok(Some((name, offset))) => r matches Ok(Some(l)) && l.name@ == name && l.offset == offset,
            Ok(None) => r matches Ok(None),
            Err(e) => r == Err::<Option<Label>, ValueError>(e),
        },
{
    let len = string.unicode_len();
    if len == 0 || !can_start_with(string.get_char(0)) {
        return Ok(None);
    }
    let mut n: usize = 1;
    while n < len && can_contain(string.get_char(n))
        invariant
            len == string@.len(),
            1 <= n <= len,
            label_end(string@, 1) == label_end(string@, n as int),
        decreases len - n,
    {
        n += 1;
    }
    let name = string.substring_char(0, n).to_owned();
    if n == len {
        return Ok(Some(Label { name, offset: 0 }));
    }
    let rest = string.substring_char(n, len);
    match parse_integer(rest, true) {
        Err(e) => Err(e),
        Ok(None) => Err(ValueError::MalformedLabel),
        Ok(Some(v)) => match int_as_i16(v) {
            Ok(offset) => Ok(Some(Label { name, offset })),
            Err(e) => Err(e),
        },
    }
}

/// An offset from the program counter: `^`, then nothing (offset 0) or an
/// integer. `Ok(None)` when `t` does not start with `^`.
pub open spec fn pc_offset_of(t: Seq<char>) -> Result<Option<i16>, ValueError> {
    if t.len() == 0 || t[0] != '^' {
        Ok(None)
    } else if t.len() == 1 {
        Ok(Some(0))
    } else {
        match integer_value(t.subrange(1, t.len() as int), false) {
            Err(e) => Err(e),
            Ok(None) => Err(ValueError::MalformedPCOffset),
            Ok(Some(v)) => match as_i16(v) {
                Ok(offset) => Ok(Some(offset)),
                Err(e) => Err(e),
            },
        }
    }
}

/// Parse an offset from the program counter, such as `^`, `^4` or `^-x10`.
pub fn parse_pc_offset(string: &str) -> (r: Result<Option<i16>, ValueError>)
    ensures
        r == pc_offset_of(string@),
{
    let len = string.unicode_len();
    if len == 0 || string.get_char(0) != '^' {
        return Ok(None);
    }
    if len == 1 {
        return Ok(Some(0));
    }
    match parse_integer(string.substring_char(1, len), false) {
        Err(e) => Err(e),
        Ok(None) => Err(ValueError::MalformedPCOffset),
        Ok(Some(v)) => match int_as_i16(v) {
            Ok(offset) => Ok(Some(offset)),
            Err(e) => Err(e),
        },
    }
}

/// The typed argument that a token writes. The forms are tried in order:
/// register, integer, PC offset, label; a token that fits none is malformed.
pub open spec fn argument_of(t: Seq<char>) -> Result<ArgumentView, ValueError> {
    match register_of(t) {
        Some(r) => Ok(ArgumentView::Register(r)),
        None => match integer_value(t, false) {
            Err(e) => Err(e),
            Ok(Some(n)) => Ok(ArgumentView::Integer(n)),
            Ok(None) => match pc_offset_of(t) {
                Err(e) => Err(e),
                Ok(Some(o)) => Ok(ArgumentView::PCOffset(o)),
                Ok(None) => match label_of(t) {
                    Err(e) => Err(e),
                    Ok(Some((name, o))) => Ok(ArgumentView::Label(name, o)),
                    Ok(None) => Err(ValueError::MalformedValue),
                },
            },
        },
    }
}

/// Parse a token as an argument of any type.
pub fn parse_argument(string: &str) -> (r: Result<Argument, ValueError>)
    ensures
        match argument_of(string@) {
            Ok(a) => r matches Ok(x) && x@ == a,
            Err(e) => r == Err::<Argument, ValueError>(e),
        },
{
    if let Some(register) = parse_register(string) {
        return Ok(Argument::Register(register));
    }
    match parse_integer(string, false) {
        Err(e) => return Err(e),
        Ok(Some(n)) => return Ok(Argument::Integer(n)),
        Ok(None) => {},
    }
    match parse_pc_offset(string) {
        Err(e) => return Err(e),
        Ok(Some(o)) => return Ok(Argument::PCOffset(o)),
        Ok(None) => {},
    }
    match parse_label(string) {
        Err(e) => Err(e),
        Ok(Some(label)) => Ok(Argument::Label(label)),
        Ok(None) => Err(ValueError::MalformedValue),
    }
}

/// The type that `t` looks like, for a message: its guessed type, or
/// `"{unknown}"` when it fits no pattern.
pub open spec fn guessed_type(t: Seq<char>) -> &'static str {
    match classify(t) {
        Some(kind) => kind.name(),
        None => "{unknown}",
    }
}

/// Returns the type that `string` looks like, for a message.
fn guess_type(string: &str) -> (r: &'static str)
    ensures
        r == guessed_type(string@),
{
    match NaiveType::classify(string) {
        Some(kind) => kind.as_str(),
        None => "{unknown}",
    }
}

/// What the integer grammar makes of an integer argument: its value, or the
/// grammar's error, or a mismatched type when `t` is no integer at all.
pub open spec fn integer_token_value(t: Seq<char>) -> Result<i32, ValueError> {
    match integer_value(t, false) {
        Err(e) => Err(e),
        Ok(None) => Err(ValueError::MismatchedType { expected_type: "integer", actual_type: guessed_type(t) }),
        Ok(Some(n)) => Ok(n),
    }
}

/// What an integer argument reads as: a value that fits a `u16`.
pub open spec fn integer_argument(t: Seq<char>) -> Result<u16, ValueError> {
    match integer_token_value(t) {
        Err(e) => Err(e),
        Ok(n) => as_u16(n),
    }
}

/// What a positive integer argument reads as: values of `0` and below read
/// as `1`; others must fit a `u16`.
pub open spec fn positive_argument(t: Seq<char>) -> Result<u16, ValueError> {
    match integer_token_value(t) {
        Err(e) => Err(e),
        Ok(n) => if n <= 0 {
            Ok(1)
        } else {
            as_u16(n)
        },
    }
}

/// What a location argument reads as: a register, or an address that fits a `u16`.
pub open spec fn location_of(t: Seq<char>) -> Result<LocationView, ValueError> {
    match argument_of(t) {
        Err(e) => Err(e),
        Ok(ArgumentView::Register(r)) => Ok(LocationView::Register(r)),
        Ok(ArgumentView::Integer(n)) => match as_u16(n) {
            Ok(a) => Ok(LocationView::Address(a)),
            Err(e) => Err(e),
        },
        Ok(ArgumentView::PCOffset(o)) => Ok(LocationView::PCOffset(o)),
        Ok(ArgumentView::Label(name, o)) => Ok(LocationView::Label(name, o)),
    }
}

/// What a memory location argument reads as: like [`location_of`], without registers.
pub open spec fn memory_location_of(t: Seq<char>) -> Result<LocationView, ValueError> {
    match argument_of(t) {
        Ok(ArgumentView::Register(_)) => Err(
            ValueError::MismatchedType { expected_type: "memory location", actual_type: "register" },
        ),
        _ => location_of(t),
    }
}

/// `r` is the error for an invalid value `e` in argument `name`, written `t`.
pub open spec fn is_invalid_value<T>(r: Result<T, ArgumentError>, name: &'static str, t: Seq<char>, e: ValueError) -> bool {
    r matches Err(err) && err@ == (ArgumentErrorView::InvalidValue { argument_name: name, string: t, error: e })
}

/// `r` is what reading `v` from the argument `name`, written `t`, gives.
pub open spec fn argument_outcome<T: View>(
    r: Result<T, ArgumentError>,
    name: &'static str,
    t: Seq<char>,
    v: Result<T::V, ValueError>,
) -> bool {
    match v {
        Ok(x) => r matches Ok(y) && y@ == x,
        Err(e) => is_invalid_value(r, name, t, e),
    }
}

/// One more, but no more than `u8::MAX`.
pub open spec fn bump(n: u8) -> u8 {
    if n < 0xff {
        (n + 1) as u8
    } else {
        n
    }
}

// ---------------------------------------------------------------------------
// The iterator

/// Walks a command line token by token. Tokens are separated by spaces (a
/// tab is an ordinary character). The line holds no semicolon or newline:
/// those split lines before they get here.
pub struct ArgIter<'a> {
    buffer: &'a str,
    /// Character index.
    cursor: usize,
    /// Amount of arguments requested (successfully or not).
    arg_count: u8,
}

/// The name the iterator goes by where command names are read.
pub type CommandIter<'a> = ArgIter<'a>;

impl<'a> ArgIter<'a> {
    #[verifier::type_invariant]
    spec fn inv(self) -> bool {
        self.cursor <= self.buffer@.len()
    }

    /// The whole line.
    pub closed spec fn line(self) -> Seq<char> {
        self.buffer@
    }

    /// Where the unread part of the line starts.
    pub closed spec fn position(self) -> int {
        self.cursor as int
    }

    /// How many arguments were requested.
    pub closed spec fn requested(self) -> u8 {
        self.arg_count
    }

    /// Iterate over `buffer` from its start.
    pub fn new(buffer: &'a str) -> (r: Self)
        requires
            single_command(buffer@),
        ensures
            r.line() == buffer@,
            r.position() == 0,
            r.requested() == 0,
    {
        ArgIter { buffer, cursor: 0, arg_count: 0 }
    }

    /// Bounds of the next token, leaving it unread.
    fn peek_bounds(&self) -> (r: Option<(usize, usize)>)
        ensures
            r matches Some((a, b)) ==> token_bounds(self.line(), self.position()) == Some(
                (a as int, b as int),
            ) && b <= self.line().len(),
            r is None ==> token_bounds(self.line(), self.position()) is None,
    {
        proof {
            use_type_invariant(self);
            lemma_token_bounds(self.line(), self.position());
        }
        find_token(self.buffer, self.buffer.unicode_len(), self.cursor)
    }

    // Do not `impl Iterator`: the methods that type arguments are the interface
    fn next_str(&mut self) -> (r: Option<&'a str>)
        ensures
            final(self).line() == old(self).line(),
            final(self).requested() == old(self).requested(),
            final(self).position() == after_token(old(self).line(), old(self).position()),
            match token_at(old(self).line(), old(self).position()) {
                Some(t) => r matches Some(x) && x@ == t,
                None => r is None,
            },
    {
        match self.peek_bounds() {
            Some((a, b)) => {
                let argument = self.buffer.substring_char(a, b);
                self.cursor = b;
                Some(argument)
            },
            None => None,
        }
    }

    /// Take the next whitespace-separated part of a command name (such as
    /// `break` and then `add`).
    pub fn next_command_name_part(&mut self) -> (r: Option<&'a str>)
        ensures
            final(self).line() == old(self).line(),
            final(self).requested() == old(self).requested(),
            final(self).position() == after_token(old(self).line(), old(self).position()),
            match token_at(old(self).line(), old(self).position()) {
                Some(t) => r matches Some(x) && x@ == t,
                None => r is None,
            },
    {
        self.next_str()
    }

    /// How many arguments were requested so far.
    pub fn arg_count(&self) -> (r: u8)
        ensures
            r == self.requested(),
    {
        self.arg_count
    }

    /// Take the next token as an argument of any type, with its text.
    fn take_argument(&mut self, argument_name: &'static str) -> (r: Result<Option<(Argument, &'a str)>, ArgumentError>)
        ensures
            final(self).line() == old(self).line(),
            final(self).requested() == bump(old(self).requested()),
            final(self).position() == after_token(old(self).line(), old(self).position()),
            match token_at(old(self).line(), old(self).position()) {
                None => r matches Ok(None),
                Some(t) => match argument_of(t) {
                    Ok(a) => r matches Ok(Some((x, s))) && x@ == a && s@ == t,
                    Err(e) => is_invalid_value(r, argument_name, t, e),
                },
            },
    {
        proof {
            use_type_invariant(&*self);
        }
        if self.arg_count < 0xff {
            self.arg_count = self.arg_count + 1;
        }
        let Some(argument) = self.next_str() else {
            return Ok(None);
        };
        match parse_argument(argument) {
            Ok(value) => Ok(Some((value, argument))),
            Err(error) => Err(
                ArgumentError::InvalidValue { argument_name, string: argument.to_owned(), error },
            ),
        }
    }

    /// Parse and consume the next argument, of any type; `Ok(None)` when the
    /// line has no more.
    pub fn next_argument(&mut self, argument_name: &'static str) -> (r: Result<Option<Argument>, ArgumentError>)
        ensures
            final(self).line() == old(self).line(),
            final(self).requested() == bump(old(self).requested()),
            final(self).position() == after_token(old(self).line(), old(self).position()),
            match token_at(old(self).line(), old(self).position()) {
                None => r matches Ok(None),
                Some(t) => match argument_of(t) {
                    Ok(a) => r matches Ok(Some(x)) && x@ == a,
                    Err(e) => is_invalid_value(r, argument_name, t, e),
                },
            },
    {
        match self.take_argument(argument_name) {
            Ok(Some((value, _))) => Ok(Some(value)),
            Ok(None) => Ok(None),
            Err(e) => Err(e),
        }
    }

    /// Take the next token if it names a register.
    pub fn next_register(&mut self) -> (r: Option<Register>)
        ensures
            final(self).line() == old(self).line(),
            final(self).requested() == old(self).requested(),
            match token_at(old(self).line(), old(self).position()) {
                Some(t) => r == register_of(t) && final(self).position() == if r is Some {
                    after_token(old(self).line(), old(self).position())
                } else {
                    old(self).position()
                },
                None => r is None && final(self).position() == old(self).position(),
            },
    {
        let (a, b) = self.peek_bounds()?;
        let register = parse_register(self.buffer.substring_char(a, b));
        if register.is_some() {
            self.cursor = b;
        }
        register
    }

    /// Take the next token if it is an integer, or fail if it is a malformed
    /// one; leave it if it is no integer.
    pub fn next_integer_token(&mut self, require_sign: bool) -> (r: Result<Option<i32>, ValueError>)
        ensures
            final(self).line() == old(self).line(),
            final(self).requested() == old(self).requested(),
            match token_at(old(self).line(), old(self).position()) {
                Some(t) => r == integer_value(t, require_sign) && final(self).position() == if r
                    matches Ok(None) {
                    old(self).position()
                } else {
                    after_token(old(self).line(), old(self).position())
                },
                None => r == Ok::<Option<i32>, ValueError>(None) && final(self).position() == old(
                    self,
                ).position(),
            },
    {
        let Some((a, b)) = self.peek_bounds() else {
            return Ok(None);
        };
        let integer = parse_integer(self.buffer.substring_char(a, b), require_sign);
        if !matches!(integer, Ok(None)) {
            self.cursor = b;
        }
        integer
    }

    /// Take the next token if it is a label, or fail if it is a malformed
    /// one; leave it if it cannot start a label.
    pub fn next_label_token(&mut self) -> (r: Result<Option<Label>, ValueError>)
        ensures
            final(self).line() == old(self).line(),
            final(self).requested() == old(self).requested(),
            match token_at(old(self).line(), old(self).position()) {
                Some(t) => match label_of(t) {
                    Ok(Some((name, offset))) => r matches Ok(Some(l)) && l.name@ == name && l.offset
                        == offset && final(self).position() == after_token(
                        old(self).line(),
                        old(self).position(),
                    ),
                    Ok(None) => r matches Ok(None) && final(self).position() == old(self).position(),
                    Err(e) => r == Err::<Option<Label>, ValueError>(e) && final(self).position()
                        == after_token(old(self).line(), old(self).position()),
                },
                None => r matches Ok(None) && final(self).position() == old(self).position(),
            },
    {
        let Some((a, b)) = self.peek_bounds() else {
            return Ok(None);
        };
        let label = parse_label(self.buffer.substring_char(a, b));
        if !matches!(label, Ok(None)) {
            self.cursor = b;
        }
        label
    }
}

impl<'a> ArgIter<'a> {
    /// Take the next token as an integer argument, with its text.
    fn take_integer(&mut self, argument_name: &'static str) -> (r: Result<Option<(i32, &'a str)>, ArgumentError>)
        ensures
            final(self).line() == old(self).line(),
            final(self).requested() == bump(old(self).requested()),
            final(self).position() == after_token(old(self).line(), old(self).position()),
            match token_at(old(self).line(), old(self).position()) {
                None => r matches Ok(None),
                Some(t) => match integer_token_value(t) {
                    Ok(n) => r matches Ok(Some((x, s))) && x == n && s@ == t,
                    Err(e) => is_invalid_value(r, argument_name, t, e),
                },
            },
    {
        proof {
            use_type_invariant(&*self);
        }
        if self.arg_count < 0xff {
            self.arg_count = self.arg_count + 1;
        }
        let Some(argument) = self.next_str() else {
            return Ok(None);
        };
        let error = match parse_integer(argument, false) {
            Ok(Some(n)) => return Ok(Some((n, argument))),
            Ok(None) => ValueError::MismatchedType { expected_type: "integer", actual_type: guess_type(argument) },
            Err(e) => e,
        };
        Err(ArgumentError::InvalidValue { argument_name, string: argument.to_owned(), error })
    }

    /// Parse and consume the next integer argument, or give `missing` when
    /// the line has no more.
    fn next_integer_inner(&mut self, argument_name: &'static str, missing: Result<u16, ArgumentError>) -> (r: Result<u16, ArgumentError>)
        ensures
            final(self).line() == old(self).line(),
            final(self).requested() == bump(old(self).requested()),
            final(self).position() == after_token(old(self).line(), old(self).position()),
            match token_at(old(self).line(), old(self).position()) {
                None => r == missing,
                Some(t) => argument_outcome(r, argument_name, t, integer_argument(t)),
            },
    {
        let Some((n, string)) = self.take_integer(argument_name)? else {
            return missing;
        };
        match int_as_u16(n) {
            Ok(value) => Ok(value),
            Err(error) => Err(ArgumentError::InvalidValue { argument_name, string: string.to_owned(), error }),
        }
    }

    /// Parse and consume the next integer argument, which must be present.
    pub fn next_integer(&mut self, argument_name: &'static str, expected_count: u8) -> (r: Result<u16, ArgumentError>)
        ensures
            final(self).line() == old(self).line(),
            final(self).requested() == bump(old(self).requested()),
            final(self).position() == after_token(old(self).line(), old(self).position()),
            match token_at(old(self).line(), old(self).position()) {
                None => r == Err::<u16, ArgumentError>(
                    ArgumentError::MissingArgument { argument_name, expected_count, actual_count: old(self).requested() },
                ),
                Some(t) => argument_outcome(r, argument_name, t, integer_argument(t)),
            },
    {
        let actual_count = self.arg_count;
        self.next_integer_inner(
            argument_name,
            Err(ArgumentError::MissingArgument { argument_name, expected_count, actual_count }),
        )
    }

    /// Parse and consume the next positive integer argument, defaulting to
    /// `1`. Values of `0` and below also become `1`.
    pub fn next_positive_integer_or_default(&mut self, argument_name: &'static str) -> (r: Result<u16, ArgumentError>)
        ensures
            final(self).line() == old(self).line(),
            final(self).requested() == bump(old(self).requested()),
            final(self).position() == after_token(old(self).line(), old(self).position()),
            match token_at(old(self).line(), old(self).position()) {
                None => r == Ok::<u16, ArgumentError>(1),
                Some(t) => argument_outcome(r, argument_name, t, positive_argument(t)),
            },
    {
        let Some((n, string)) = self.take_integer(argument_name)? else {
            return Ok(1);
        };
        if n <= 0 {
            return Ok(1);
        }
        match int_as_u16(n) {
            Ok(value) => Ok(value),
            Err(error) => Err(ArgumentError::InvalidValue { argument_name, string: string.to_owned(), error }),
        }
    }

    /// Parse and consume the next location argument: a register, or a memory
    /// location given by address, PC offset or label.
    pub fn next_location(&mut self, argument_name: &'static str, expected_count: u8) -> (r: Result<Location, ArgumentError>)
        ensures
            final(self).line() == old(self).line(),
            final(self).requested() == bump(old(self).requested()),
            final(self).position() == after_token(old(self).line(), old(self).position()),
            match token_at(old(self).line(), old(self).position()) {
                None => r == Err::<Location, ArgumentError>(
                    ArgumentError::MissingArgument { argument_name, expected_count, actual_count: old(self).requested() },
                ),
                Some(t) => argument_outcome(r, argument_name, t, location_of(t)),
            },
    {
        let actual_count = self.arg_count;
        let Some((argument, string)) = self.take_argument(argument_name)? else {
            return Err(ArgumentError::MissingArgument { argument_name, expected_count, actual_count });
        };
        match argument {
            Argument::Register(register) => Ok(Location::Register(register)),
            Argument::Integer(n) => match int_as_u16(n) {
                Ok(address) => Ok(Location::Memory(MemoryLocation::Address(address))),
                Err(error) => Err(ArgumentError::InvalidValue { argument_name, string: string.to_owned(), error }),
            },
            Argument::PCOffset(offset) => Ok(Location::Memory(MemoryLocation::PCOffset(offset))),
            Argument::Label(label) => Ok(Location::Memory(MemoryLocation::Label(label))),
        }
    }

    /// Parse and consume the next memory location argument, or give
    /// `missing` when the line has no more.
    fn next_memory_location_inner(
        &mut self,
        argument_name: &'static str,
        missing: Result<MemoryLocation, ArgumentError>,
    ) -> (r: Result<MemoryLocation, ArgumentError>)
        ensures
            final(self).line() == old(self).line(),
            final(self).requested() == bump(old(self).requested()),
            final(self).position() == after_token(old(self).line(), old(self).position()),
            match token_at(old(self).line(), old(self).position()) {
                None => r == missing,
                Some(t) => argument_outcome(r, argument_name, t, memory_location_of(t)),
            },
    {
        let Some((argument, string)) = self.take_argument(argument_name)? else {
            return missing;
        };
        let error = match argument {
            Argument::Register(_) => ValueError::MismatchedType {
                expected_type: "memory location",
                actual_type: "register",
            },
            Argument::Integer(n) => match int_as_u16(n) {
                Ok(address) => return Ok(MemoryLocation::Address(address)),
                Err(e) => e,
            },
            Argument::PCOffset(offset) => return Ok(MemoryLocation::PCOffset(offset)),
            Argument::Label(label) => return Ok(MemoryLocation::Label(label)),
        };
        Err(ArgumentError::InvalidValue { argument_name, string: string.to_owned(), error })
    }

    /// Parse and consume the next memory location argument, which must be present.
    pub fn next_memory_location(&mut self, argument_name: &'static str, expected_count: u8) -> (r: Result<MemoryLocation, ArgumentError>)
        ensures
            final(self).line() == old(self).line(),
            final(self).requested() == bump(old(self).requested()),
            final(self).position() == after_token(old(self).line(), old(self).position()),
            match token_at(old(self).line(), old(self).position()) {
                None => r == Err::<MemoryLocation, ArgumentError>(
                    ArgumentError::MissingArgument { argument_name, expected_count, actual_count: old(self).requested() },
                ),
                Some(t) => argument_outcome(r, argument_name, t, memory_location_of(t)),
            },
    {
        let actual_count = self.arg_count;
        self.next_memory_location_inner(
            argument_name,
            Err(ArgumentError::MissingArgument { argument_name, expected_count, actual_count }),
        )
    }

    /// Parse and consume the next memory location argument, defaulting to the
    /// program counter ([`MemoryLocation::PCOffset`] of 0).
    pub fn next_memory_location_or_default(&mut self, argument_name: &'static str) -> (r: Result<MemoryLocation, ArgumentError>)
        ensures
            final(self).line() == old(self).line(),
            final(self).requested() == bump(old(self).requested()),
            final(self).position() == after_token(old(self).line(), old(self).position()),
            match token_at(old(self).line(), old(self).position()) {
                None => r == Ok::<MemoryLocation, ArgumentError>(MemoryLocation::PCOffset(0)),
                Some(t) => argument_outcome(r, argument_name, t, memory_location_of(t)),
            },
    {
        self.next_memory_location_inner(argument_name, Ok(MemoryLocation::PCOffset(0)))
    }

    /// Fails with 'too many arguments' if any token is left unread.
    pub fn expect_end(&mut self, expected: u8, actual: u8) -> (r: Result<(), ArgumentError>)
        ensures
            final(self).line() == old(self).line(),
            final(self).requested() == old(self).requested(),
            final(self).position() == after_token(old(self).line(), old(self).position()),
            token_at(old(self).line(), old(self).position()) is None ==> r == Ok::<(), ArgumentError>(()),
            token_at(old(self).line(), old(self).position()) is Some ==> r == Err::<(), ArgumentError>(
                ArgumentError::TooManyArguments { expected_count: expected, actual_count: actual },
            ),
    {
        if self.next_str().is_none() {
            Ok(())
        } else {
            Err(ArgumentError::TooManyArguments { expected_count: expected, actual_count: actual })
        }
    }

    /// Consume the rest of the line as one string, without leading and
    /// trailing whitespace (as `str::trim` drops it). Used for the `eval` command.
    pub fn collect_rest(&mut self) -> (r: String)
        ensures
            final(self).line() == old(self).line(),
            final(self).requested() == old(self).requested(),
            final(self).position() == old(self).line().len(),
            r@ == trim_blanks(old(self).line().subrange(old(self).position(), old(self).line().len() as int)),
    {
        proof {
            use_type_invariant(&*self);
        }
        let len = self.buffer.unicode_len();
        let ghost s = self.buffer@;
        let start = self.cursor;
        let mut a = self.cursor;
        while a < len && is_blank(self.buffer.get_char(a))
            invariant
                len == s.len(),
                s == self.buffer@,
                self.cursor <= a <= len,
                skip_blanks(s, self.cursor as int) == skip_blanks(s, a as int),
            decreases len - a,
        {
            a += 1;
        }
        let mut b = len;
        while b > a && is_blank(self.buffer.get_char(b - 1))
            invariant
                len == s.len(),
                s == self.buffer@,
                a <= b <= len,
                trailing_end(s, a as int, len as int) == trailing_end(s, a as int, b as int),
            decreases b,
        {
            b -= 1;
        }
        let rest = self.buffer.substring_char(a, b).to_owned();
        self.cursor = len;
        proof {
            lemma_trim_blanks(s, start as int, a as int, b as int);
        }
        rest
    }
}

/// Whether `ch` is whitespace: a character with the Unicode `White_Space`
/// property, the set that `char::is_whitespace` and `str::trim` use.
pub open spec fn blank(ch: char) -> bool {
    let c = ch as u32;
    ||| 0x09 <= c <= 0x0D
    ||| c == 0x20
    ||| c == 0x85
    ||| c == 0xA0
    ||| c == 0x1680
    ||| 0x2000 <= c <= 0x200A
    ||| c == 0x2028
    ||| c == 0x2029
    ||| c == 0x202F
    ||| c == 0x205F
    ||| c == 0x3000
}

/// Returns whether `ch` is whitespace (Unicode `White_Space`).
pub fn is_blank(ch: char) -> (r: bool)
    ensures
        r == blank(ch),
{
    let c = ch as u32;
    (0x09 <= c && c <= 0x0D) || c == 0x20 || c == 0x85 || c == 0xA0 || c == 0x1680 || (0x2000 <= c && c
        <= 0x200A) || c == 0x2028 || c == 0x2029 || c == 0x202F || c == 0x205F || c == 0x3000
}

/// The first position at or after `i` that does not hold whitespace.
pub open spec fn skip_blanks(s: Seq<char>, i: int) -> int
    decreases s.len() - i,
{
    if 0 <= i < s.len() && blank(s[i]) {
        skip_blanks(s, i + 1)
    } else {
        i
    }
}

/// The end of `s[a..b]` once trailing whitespace is dropped.
pub open spec fn trailing_end(s: Seq<char>, a: int, b: int) -> int
    decreases b - a,
{
    if a < b && blank(s[b - 1]) {
        trailing_end(s, a, b - 1)
    } else {
        b
    }
}

/// `t` without its leading and trailing whitespace.
pub open spec fn trim_blanks(t: Seq<char>) -> Seq<char> {
    let a = skip_blanks(t, 0);
    t.subrange(a, trailing_end(t, a, t.len() as int))
}

proof fn lemma_trim_blanks(s: Seq<char>, c: int, a: int, b: int)
    requires
        0 <= c <= s.len(),
        a == skip_blanks(s, c),
        b == trailing_end(s, a, s.len() as int),
    ensures
        s.subrange(a, b) == trim_blanks(s.subrange(c, s.len() as int)),
{
    let t = s.subrange(c, s.len() as int);
    lemma_skip_blanks_shift(s, c, c);
    lemma_skip_blanks(s, c);
    lemma_trailing_end_shift(s, c, a, s.len() as int);
    lemma_trailing_end_bounds(s, a, s.len() as int);
    assert(t.subrange(a - c, b - c) =~= s.subrange(a, b));
}

proof fn lemma_skip_blanks(s: Seq<char>, i: int)
    requires
        0 <= i <= s.len(),
    ensures
        i <= skip_blanks(s, i) <= s.len(),
    decreases s.len() - i,
{
    if i < s.len() && blank(s[i]) {
        lemma_skip_blanks(s, i + 1);
    }
}

proof fn lemma_skip_blanks_shift(s: Seq<char>, c: int, i: int)
    requires
        0 <= c <= i <= s.len(),
    ensures
        skip_blanks(s.subrange(c, s.len() as int), i - c) == skip_blanks(s, i) - c,
    decreases s.len() - i,
{
    if i < s.len() && blank(s[i]) {
        lemma_skip_blanks_shift(s, c, i + 1);
    }
}

proof fn lemma_trailing_end_shift(s: Seq<char>, c: int, a: int, b: int)
    requires
        0 <= c <= a <= b <= s.len(),
    ensures
        trailing_end(s.subrange(c, s.len() as int), a - c, b - c) == trailing_end(s, a, b) - c,
    decreases b - a,
{
    if a < b && blank(s[b - 1]) {
        lemma_trailing_end_shift(s, c, a, b - 1);
    }
}

proof fn lemma_trailing_end_bounds(s: Seq<char>, a: int, b: int)
    requires
        a <= b,
    ensures
        a <= trailing_end(s, a, b) <= b,
    decreases b - a,
{
    if a < b && blank(s[b - 1]) {
        lemma_trailing_end_bounds(s, a, b - 1);
    }
}

} // verus!
