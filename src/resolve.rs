//! Resolving command names against the alias tables, and reading a whole
//! command line into a [`Command`].

use vstd::prelude::*;
use vstd::string::StrSliceExecFns;

use crate::command::{Command, CommandName, CommandView, LocationView};
use crate::error::{ArgumentError, ArgumentErrorView, CommandError, CommandErrorView, ValueError};
use crate::parse::{
    after_token, integer_argument, location_of, memory_location_of, positive_argument, single_command, token_at, trim_blanks,
    ArgIter,
};

verus! {

/// `c` folded to lower case, as a code point (ASCII letters only).
pub open spec fn fold(c: char) -> u32 {
    let n = c as u32;
    if 65 <= n <= 90 {
        (n + 32) as u32
    } else {
        n
    }
}

/// Whether `a` and `b` are equal, ignoring ASCII case.
pub open spec fn same_ignoring_case(a: Seq<char>, b: Seq<char>) -> bool {
    a.len() == b.len() && forall|i: int| 0 <= i < a.len() ==> #[trigger] fold(a[i]) == fold(b[i])
}

/// Whether `name` equals one of `candidates`, ignoring ASCII case.
pub open spec fn matches_any(name: Seq<char>, candidates: Seq<Seq<char>>) -> bool {
    exists|i: int| 0 <= i < candidates.len() && same_ignoring_case(name, #[trigger] candidates[i])
}

/// The aliases of a command, or, with `subcommand`, of a subcommand of `break`.
pub open spec fn aliases(name: CommandName, subcommand: bool) -> Seq<Seq<char>> {
    if subcommand {
        match name {
            CommandName::BreakList => seq!["list"@, "l"@],
            CommandName::BreakAdd => seq!["add"@, "a"@],
            CommandName::BreakRemove => seq!["remove"@, "r"@],
            _ => seq![],
        }
    } else {
        match name {
            CommandName::Help => seq!["help"@, "--help"@, "h"@, "-h"@],
            CommandName::Continue => seq!["continue"@, "cont"@, "c"@],
            CommandName::Finish => seq!["finish"@, "fin"@, "f"@],
            CommandName::Exit => seq!["exit"@],
            CommandName::Quit => seq!["quit"@, "q"@],
            CommandName::Registers => seq!["registers"@, "reg"@, "r"@],
            CommandName::Reset => seq!["reset"@],
            CommandName::Step => seq!["progress"@, "p"@],
            CommandName::Next => seq!["next"@, "n"@],
            CommandName::Get => seq!["get"@, "g"@],
            CommandName::SetValue => seq!["set"@, "s"@],
            CommandName::Jump => seq!["jump"@, "j"@],
            CommandName::Source => seq!["assembly"@, "asm"@, "a"@],
            CommandName::Eval => seq!["eval"@, "e"@],
            CommandName::BreakList => seq!["breaklist"@, "bl"@],
            CommandName::BreakAdd => seq!["breakadd"@, "ba"@],
            CommandName::BreakRemove => seq!["breakremove"@, "br"@],
        }
    }
}

/// The aliases of the command that takes a subcommand.
pub open spec fn break_aliases() -> Seq<Seq<char>> {
    seq!["break"@, "b"@]
}

/// The commands in the order in which their aliases are tried.
pub open spec fn command_order() -> Seq<CommandName> {
    seq![
        CommandName::Help,
        CommandName::Continue,
        CommandName::Finish,
        CommandName::Exit,
        CommandName::Quit,
        CommandName::Registers,
        CommandName::Reset,
        CommandName::Step,
        CommandName::Next,
        CommandName::Get,
        CommandName::SetValue,
        CommandName::Jump,
        CommandName::Source,
        CommandName::Eval,
        CommandName::BreakList,
        CommandName::BreakAdd,
        CommandName::BreakRemove,
    ]
}

/// The subcommands of `break` in the order in which their aliases are tried.
pub open spec fn subcommand_order() -> Seq<CommandName> {
    seq![CommandName::BreakList, CommandName::BreakAdd, CommandName::BreakRemove]
}

/// The first command of `table` with an alias equal to `name`, ignoring case.
pub open spec fn first_match(name: Seq<char>, table: Seq<CommandName>, subcommand: bool) -> Option<CommandName>
    decreases table.len(),
{
    if table.len() == 0 {
        None
    } else if matches_any(name, aliases(table[0], subcommand)) {
        Some(table[0])
    } else {
        first_match(name, table.drop_first(), subcommand)
    }
}

/// The views of a list of strings.
pub open spec fn views(v: Seq<&'static str>) -> Seq<Seq<char>> {
    Seq::new(v.len(), |i: int| v[i]@)
}

/// Returns whether `a` and `b` are equal, ignoring ASCII case.
pub fn eq_ignore_case(a: &str, b: &str) -> (r: bool)
    ensures
        r == same_ignoring_case(a@, b@),
{
    let len = a.unicode_len();
    if len != b.unicode_len() {
        return false;
    }
    let mut i: usize = 0;
    while i < len
        invariant
            len == a@.len(),
            len == b@.len(),
            0 <= i <= len,
            forall|j: int| 0 <= j < i ==> #[trigger] fold(a@[j]) == fold(b@[j]),
        decreases len - i,
    {
        let x = a.get_char(i) as u32;
        let y = b.get_char(i) as u32;
        let fx = if 'A' as u32 <= x && x <= 'Z' as u32 {
            x + 32
        } else {
            x
        };
        let fy = if 'A' as u32 <= y && y <= 'Z' as u32 {
            y + 32
        } else {
            y
        };
        if fx != fy {
            assert(fold(a@[i as int]) != fold(b@[i as int]));
            return false;
        }
        i += 1;
    }
    true
}

/// Returns `true` if `name` matches any item of `candidates` (case insensitive).
pub fn name_matches(name: &str, candidates: &Vec<&'static str>) -> (r: bool)
    ensures
        r == matches_any(name@, views(candidates@)),
{
    let mut i: usize = 0;
    while i < candidates.len()
        invariant
            0 <= i <= candidates@.len(),
            forall|j: int| 0 <= j < i ==> !same_ignoring_case(name@, #[trigger] views(candidates@)[j]),
        decreases candidates@.len() - i,
    {
        if eq_ignore_case(name, candidates[i]) {
            assert(same_ignoring_case(name@, views(candidates@)[i as int]));
            return true;
        }
        i += 1;
    }
    false
}

/// The aliases of a command, or with `subcommand`, of a subcommand of `break`.
fn candidates(name: CommandName, subcommand: bool) -> (r: Vec<&'static str>)
    ensures
        views(r@) == aliases(name, subcommand),
{
    let r = if subcommand {
        match name {
            CommandName::BreakList => vec!["list", "l"],
            CommandName::BreakAdd => vec!["add", "a"],
            CommandName::BreakRemove => vec!["remove", "r"],
            _ => vec![],
        }
    } else {
        match name {
            CommandName::Help => vec!["help", "--help", "h", "-h"],
            CommandName::Continue => vec!["continue", "cont", "c"],
            CommandName::Finish => vec!["finish", "fin", "f"],
            CommandName::Exit => vec!["exit"],
            CommandName::Quit => vec!["quit", "q"],
            CommandName::Registers => vec!["registers", "reg", "r"],
            CommandName::Reset => vec!["reset"],
            CommandName::Step => vec!["progress", "p"],
            CommandName::Next => vec!["next", "n"],
            CommandName::Get => vec!["get", "g"],
            CommandName::SetValue => vec!["set", "s"],
            CommandName::Jump => vec!["jump", "j"],
            CommandName::Source => vec!["assembly", "asm", "a"],
            CommandName::Eval => vec!["eval", "e"],
            CommandName::BreakList => vec!["breaklist", "bl"],
            CommandName::BreakAdd => vec!["breakadd", "ba"],
            CommandName::BreakRemove => vec!["breakremove", "br"],
        }
    };
    assert(views(r@) =~= aliases(name, subcommand));
    r
}

/// The commands, in the order in which their aliases are tried.
fn commands() -> (r: Vec<CommandName>)
    ensures
        r@ == command_order(),
{
    let r = vec![
        CommandName::Help,
        CommandName::Continue,
        CommandName::Finish,
        CommandName::Exit,
        CommandName::Quit,
        CommandName::Registers,
        CommandName::Reset,
        CommandName::Step,
        CommandName::Next,
        CommandName::Get,
        CommandName::SetValue,
        CommandName::Jump,
        CommandName::Source,
        CommandName::Eval,
        CommandName::BreakList,
        CommandName::BreakAdd,
        CommandName::BreakRemove,
    ];
    assert(r@ =~= command_order());
    r
}

/// The subcommands of `break`, in the order in which their aliases are tried.
fn break_subcommands() -> (r: Vec<CommandName>)
    ensures
        r@ == subcommand_order(),
{
    let r = vec![CommandName::BreakList, CommandName::BreakAdd, CommandName::BreakRemove];
    assert(r@ =~= subcommand_order());
    r
}

/// Returns the first command of `commands` with an alias that matches
/// `name` (case insensitive), or `None`.
pub fn find_name_match(name: &str, commands: &Vec<CommandName>, subcommand: bool) -> (r: Option<CommandName>)
    ensures
        r == first_match(name@, commands@, subcommand),
{
    let mut i: usize = 0;
    assert(commands@.subrange(0, commands@.len() as int) =~= commands@);
    while i < commands.len()
        invariant
            0 <= i <= commands@.len(),
            first_match(name@, commands@, subcommand) == first_match(
                name@,
                commands@.subrange(i as int, commands@.len() as int),
                subcommand,
            ),
        decreases commands@.len() - i,
    {
        let ghost rest = commands@.subrange(i as int, commands@.len() as int);
        assert(rest.drop_first() =~= commands@.subrange(i + 1, commands@.len() as int));
        let command = commands[i];
        if name_matches(name, &candidates(command, subcommand)) {
            return Some(command);
        }
        i += 1;
    }
    None
}

/// How the command name at `cursor` resolves, and where the cursor stands
/// after it. A name that matches no command but matches `break` takes the
/// next token as a subcommand of `break`.
pub open spec fn command_name_at(s: Seq<char>, cursor: int) -> Result<(CommandName, int), CommandErrorView> {
    let first = match token_at(s, cursor) {
        Some(t) => t,
        None => Seq::<char>::empty(),
    };
    let c = after_token(s, cursor);
    match first_match(first, command_order(), false) {
        Some(name) => Ok((name, c)),
        None => if matches_any(first, break_aliases()) {
            match token_at(s, c) {
                None => Err(CommandErrorView::MissingSubcommand { command_name: "break" }),
                Some(second) => match first_match(second, subcommand_order(), true) {
                    Some(name) => Ok((name, after_token(s, c))),
                    None => Err(CommandErrorView::InvalidSubcommand { command_name: "break", subcommand_name: second }),
                },
            }
        } else {
            Err(CommandErrorView::InvalidCommand { command_name: first })
        },
    }
}

impl<'a> ArgIter<'a> {
    /// Parse and consume the command name, taking a two-word name (a
    /// subcommand, such as `break add`) as one.
    pub fn get_command_name(&mut self) -> (r: Result<CommandName, CommandError>)
        ensures
            final(self).line() == old(self).line(),
            final(self).requested() == old(self).requested(),
            match command_name_at(old(self).line(), old(self).position()) {
                Ok((name, c)) => r == Ok::<CommandName, CommandError>(name) && final(self).position() == c,
                Err(e) => r matches Err(x) && x@ == e,
            },
    {
        let command_name = match self.next_command_name_part() {
            Some(name) => name,
            None => "",
        };
        proof {
            reveal_strlit("");
        }
        let ghost first = match token_at(old(self).line(), old(self).position()) {
            Some(t) => t,
            None => Seq::<char>::empty(),
        };
        assert(command_name@ =~= first);
        if let Some(command) = find_name_match(command_name, &commands(), false) {
            return Ok(command);
        }
        let break_names = vec!["break", "b"];
        assert(views(break_names@) =~= break_aliases());
        if name_matches(command_name, &break_names) {
            let Some(subcommand_name) = self.next_command_name_part() else {
                return Err(CommandError::MissingSubcommand { command_name: "break" });
            };
            let Some(command) = find_name_match(subcommand_name, &break_subcommands(), true) else {
                return Err(
                    CommandError::InvalidSubcommand {
                        command_name: "break",
                        subcommand_name: subcommand_name.to_owned(),
                    },
                );
            };
            return Ok(command);
        }
        Err(CommandError::InvalidCommand { command_name: command_name.to_owned() })
    }
}

/// Reading an argument that must be present at `cursor`, the `count`-th of
/// `expected`: its value and the cursor after it.
pub open spec fn required<V>(
    s: Seq<char>,
    cursor: int,
    name: &'static str,
    expected: u8,
    count: u8,
    read: spec_fn(Seq<char>) -> Result<V, ValueError>,
) -> Result<(V, int), ArgumentErrorView> {
    match token_at(s, cursor) {
        None => Err(ArgumentErrorView::MissingArgument { argument_name: name, expected_count: expected, actual_count: count }),
        Some(t) => match read(t) {
            Ok(v) => Ok((v, after_token(s, cursor))),
            Err(e) => Err(ArgumentErrorView::InvalidValue { argument_name: name, string: t, error: e }),
        },
    }
}

/// Reading an argument that defaults to `default` when the line has no more.
pub open spec fn optional<V>(
    s: Seq<char>,
    cursor: int,
    name: &'static str,
    default: V,
    read: spec_fn(Seq<char>) -> Result<V, ValueError>,
) -> Result<(V, int), ArgumentErrorView> {
    match token_at(s, cursor) {
        None => Ok((default, cursor)),
        Some(t) => match read(t) {
            Ok(v) => Ok((v, after_token(s, cursor))),
            Err(e) => Err(ArgumentErrorView::InvalidValue { argument_name: name, string: t, error: e }),
        },
    }
}

/// `command`, if nothing but spaces follows `cursor`.
pub open spec fn ended(s: Seq<char>, cursor: int, expected: u8, command: CommandView) -> Result<CommandView, ArgumentErrorView> {
    if token_at(s, cursor) is None {
        Ok(command)
    } else {
        Err(ArgumentErrorView::TooManyArguments { expected_count: expected, actual_count: (expected + 1) as u8 })
    }
}

/// The command `name` with its arguments read from `cursor` on.
pub open spec fn arguments_of(s: Seq<char>, name: CommandName, cursor: int) -> Result<CommandView, ArgumentErrorView> {
    match name {
        CommandName::Help => ended(s, cursor, 0, CommandView::Help),
        CommandName::Continue => ended(s, cursor, 0, CommandView::Continue),
        CommandName::Finish => ended(s, cursor, 0, CommandView::Finish),
        CommandName::Exit => ended(s, cursor, 0, CommandView::Exit),
        CommandName::Quit => ended(s, cursor, 0, CommandView::Quit),
        CommandName::Registers => ended(s, cursor, 0, CommandView::Registers),
        CommandName::Reset => ended(s, cursor, 0, CommandView::Reset),
        CommandName::Next => ended(s, cursor, 0, CommandView::Next),
        CommandName::BreakList => ended(s, cursor, 0, CommandView::BreakList),
        CommandName::Step => match optional(s, cursor, "count", 1u16, |t: Seq<char>| positive_argument(t)) {
            Ok((count, c)) => ended(s, c, 1, CommandView::Step { count }),
            Err(e) => Err(e),
        },
        CommandName::Get => match required(s, cursor, "location", 1, 0, |t: Seq<char>| location_of(t)) {
            Ok((location, c)) => ended(s, c, 1, CommandView::Get { location }),
            Err(e) => Err(e),
        },
        CommandName::SetValue => match required(s, cursor, "location", 2, 0, |t: Seq<char>| location_of(t)) {
            Ok((location, c)) => match required(s, c, "value", 2, 1, |t: Seq<char>| integer_argument(t)) {
                Ok((value, c2)) => ended(s, c2, 2, CommandView::SetValue { location, value }),
                Err(e) => Err(e),
            },
            Err(e) => Err(e),
        },
        CommandName::Jump => match required(s, cursor, "location", 1, 0, |t: Seq<char>| memory_location_of(t)) {
            Ok((location, c)) => ended(s, c, 1, CommandView::Jump { location }),
            Err(e) => Err(e),
        },
        CommandName::Source => match optional(
            s,
            cursor,
            "location",
            LocationView::PCOffset(0),
            |t: Seq<char>| memory_location_of(t),
        ) {
            Ok((location, c)) => ended(s, c, 1, CommandView::Source { location }),
            Err(e) => Err(e),
        },
        CommandName::Eval => Ok(CommandView::Eval { instruction: trim_blanks(s.subrange(cursor, s.len() as int)) }),
        CommandName::BreakAdd => match required(s, cursor, "location", 1, 0, |t: Seq<char>| memory_location_of(t)) {
            Ok((location, c)) => ended(s, c, 1, CommandView::BreakAdd { location }),
            Err(e) => Err(e),
        },
        CommandName::BreakRemove => match required(s, cursor, "location", 1, 0, |t: Seq<char>| memory_location_of(t)) {
            Ok((location, c)) => ended(s, c, 1, CommandView::BreakRemove { location }),
            Err(e) => Err(e),
        },
    }
}

/// What a command line reads as: its command name, then the arguments of
/// that command, with nothing left over.
pub open spec fn command_of(s: Seq<char>) -> Result<CommandView, CommandErrorView> {
    match command_name_at(s, 0) {
        Err(e) => Err(e),
        Ok((name, c)) => match arguments_of(s, name, c) {
            Ok(command) => Ok(command),
            Err(e) => Err(CommandErrorView::Argument(e)),
        },
    }
}

/// Fails with 'too many arguments' unless the line is used up.
fn finish(iter: &mut ArgIter, expected: u8, command: Command) -> (r: Result<Command, ArgumentError>)
    requires
        expected < 0xff,
    ensures
        final(iter).line() == old(iter).line(),
        match ended(old(iter).line(), old(iter).position(), expected, command@) {
            Ok(c) => r matches Ok(x) && x@ == c,
            Err(e) => r matches Err(x) && x@ == e,
        },
{
    match iter.expect_end(expected, expected + 1) {
        Ok(()) => Ok(command),
        Err(e) => Err(e),
    }
}

/// Read the arguments of the command `name`.
fn read_arguments(iter: &mut ArgIter, name: CommandName) -> (r: Result<Command, ArgumentError>)
    requires
        old(iter).requested() == 0,
    ensures
        match arguments_of(old(iter).line(), name, old(iter).position()) {
            Ok(c) => r matches Ok(x) && x@ == c,
            Err(e) => r matches Err(x) && x@ == e,
        },
{
    match name {
        CommandName::Help => finish(iter, 0, Command::Help),
        CommandName::Continue => finish(iter, 0, Command::Continue),
        CommandName::Finish => finish(iter, 0, Command::Finish),
        CommandName::Exit => finish(iter, 0, Command::Exit),
        CommandName::Quit => finish(iter, 0, Command::Quit),
        CommandName::Registers => finish(iter, 0, Command::Registers),
        CommandName::Reset => finish(iter, 0, Command::Reset),
        CommandName::Next => finish(iter, 0, Command::Next),
        CommandName::BreakList => finish(iter, 0, Command::BreakList),
        CommandName::Step => match iter.next_positive_integer_or_default("count") {
            Ok(count) => finish(iter, 1, Command::Step { count }),
            Err(e) => Err(e),
        },
        CommandName::Get => match iter.next_location("location", 1) {
            Ok(location) => finish(iter, 1, Command::Get { location }),
            Err(e) => Err(e),
        },
        CommandName::SetValue => match iter.next_location("location", 2) {
            Ok(location) => match iter.next_integer("value", 2) {
                Ok(value) => finish(iter, 2, Command::SetValue { location, value }),
                Err(e) => Err(e),
            },
            Err(e) => Err(e),
        },
        CommandName::Jump => match iter.next_memory_location("location", 1) {
            Ok(location) => finish(iter, 1, Command::Jump { location }),
            Err(e) => Err(e),
        },
        CommandName::Source => match iter.next_memory_location_or_default("location") {
            Ok(location) => finish(iter, 1, Command::Source { location }),
            Err(e) => Err(e),
        },
        CommandName::Eval => Ok(Command::Eval { instruction: iter.collect_rest() }),
        CommandName::BreakAdd => match iter.next_memory_location("location", 1) {
            Ok(location) => finish(iter, 1, Command::BreakAdd { location }),
            Err(e) => Err(e),
        },
        CommandName::BreakRemove => match iter.next_memory_location("location", 1) {
            Ok(location) => finish(iter, 1, Command::BreakRemove { location }),
            Err(e) => Err(e),
        },
    }
}

/// Read a command line as a command. The line holds one command: no
/// semicolon or newline. Leading and trailing spaces do not matter.
pub fn parse_command(line: &str) -> (r: Result<Command, CommandError>)
    requires
        single_command(line@),
    ensures
        match command_of(line@) {
            Ok(c) => r matches Ok(x) && x@ == c,
            Err(e) => r matches Err(x) && x@ == e,
        },
{
    let mut iter = ArgIter::new(line);
    let name = match iter.get_command_name() {
        Ok(name) => name,
        Err(e) => return Err(e),
    };
    match read_arguments(&mut iter, name) {
        Ok(command) => Ok(command),
        Err(e) => Err(CommandError::Argument(e)),
    }
}

} // verus!
