//! Recognising trap and directive names in assembly source.

use vstd::prelude::*;
use vstd::string::StrSliceExecFns;

use crate::resolve::{eq_ignore_case, same_ignoring_case};

verus! {

/// A trap name that assembly source may use in place of `TRAP` and a vector.
#[derive(Clone, Copy, Debug, PartialEq, Eq, Structural)]
pub enum TrapKind {
    Getc,
    Out,
    Puts,
    In,
    Putsp,
    Halt,
    /// `TRAP` itself, with an explicit vector.
    Generic,
}

/// An assembler directive.
#[derive(Clone, Copy, Debug, PartialEq, Eq, Structural)]
pub enum DirKind {
    Orig,
    End,
    Stringz,
    Blkw,
    Fill,
}

/// The trap that `s` names, ignoring ASCII case.
pub open spec fn trap_of(s: Seq<char>) -> Option<TrapKind> {
    if same_ignoring_case(s, "getc"@) {
        Some(TrapKind::Getc)
    } else if same_ignoring_case(s, "out"@) {
        Some(TrapKind::Out)
    } else if same_ignoring_case(s, "puts"@) {
        Some(TrapKind::Puts)
    } else if same_ignoring_case(s, "in"@) {
        Some(TrapKind::In)
    } else if same_ignoring_case(s, "putsp"@) {
        Some(TrapKind::Putsp)
    } else if same_ignoring_case(s, "halt"@) {
        Some(TrapKind::Halt)
    } else if same_ignoring_case(s, "trap"@) {
        Some(TrapKind::Generic)
    } else {
        None
    }
}

/// The directive that `s` names, ignoring ASCII case.
pub open spec fn directive_of(s: Seq<char>) -> Option<DirKind> {
    if same_ignoring_case(s, ".orig"@) {
        Some(DirKind::Orig)
    } else if same_ignoring_case(s, ".end"@) {
        Some(DirKind::End)
    } else if same_ignoring_case(s, ".stringz"@) {
        Some(DirKind::Stringz)
    } else if same_ignoring_case(s, ".blkw"@) {
        Some(DirKind::Blkw)
    } else if same_ignoring_case(s, ".fill"@) {
        Some(DirKind::Fill)
    } else {
        None
    }
}

/// Used to read symbols and recognise exact names in assembly source.
pub struct StrParser<'a> {
    src: &'a str,
    /// Character index.
    pos: usize,
    line_num: usize,
}

impl<'a> StrParser<'a> {
    /// The source text.
    pub closed spec fn source(&self) -> Seq<char> {
        self.src@
    }

    /// Where reading stands.
    pub closed spec fn position(&self) -> int {
        self.pos as int
    }

    /// The line that reading stands on, from 1.
    pub closed spec fn line(&self) -> int {
        self.line_num as int
    }

    /// A parser at the start of `src`, on line 1.
    pub fn new(src: &'a str) -> (r: Self)
        ensures
            r.source() == src@,
            r.position() == 0,
            r.line() == 1,
    {
        StrParser { src, pos: 0, line_num: 1 }
    }

    /// The `n + 1` characters from where reading stands.
    fn get_next_chars(&self, n: usize) -> (r: &'a str)
        requires
            self.position() + n < self.source().len() <= usize::MAX,
        ensures
            r@ == self.source().subrange(self.position(), self.position() + n + 1),
    {
        self.src.substring_char(self.pos, self.pos + n + 1)
    }

    /// The trap that `s` names, ignoring case.
    fn trap(s: &str) -> (r: Option<TrapKind>)
        ensures
            r == trap_of(s@),
    {
        if eq_ignore_case(s, "getc") {
            Some(TrapKind::Getc)
        } else if eq_ignore_case(s, "out") {
            Some(TrapKind::Out)
        } else if eq_ignore_case(s, "puts") {
            Some(TrapKind::Puts)
        } else if eq_ignore_case(s, "in") {
            Some(TrapKind::In)
        } else if eq_ignore_case(s, "putsp") {
            Some(TrapKind::Putsp)
        } else if eq_ignore_case(s, "halt") {
            Some(TrapKind::Halt)
        } else if eq_ignore_case(s, "trap") {
            Some(TrapKind::Generic)
        } else {
            None
        }
    }

    /// The directive that `s` names, ignoring case.
    pub fn direc(s: &str) -> (r: Option<DirKind>)
        ensures
            r == directive_of(s@),
    {
        if eq_ignore_case(s, ".orig") {
            Some(DirKind::Orig)
        } else if eq_ignore_case(s, ".end") {
            Some(DirKind::End)
        } else if eq_ignore_case(s, ".stringz") {
            Some(DirKind::Stringz)
        } else if eq_ignore_case(s, ".blkw") {
            Some(DirKind::Blkw)
        } else if eq_ignore_case(s, ".fill") {
            Some(DirKind::Fill)
        } else {
            None
        }
    }
}

} // verus!
