//! Errors of the command language, from single values up to whole commands.

use vstd::prelude::*;

verus! {

/// Why a single argument value could not be read.
#[derive(Clone, Debug, PartialEq, Eq)]
pub enum ValueError {
    /// The token fits no argument type at all.
    MalformedValue,
    /// The token looks like an integer but breaks the integer grammar.
    MalformedInteger,
    /// The token starts like a label but has a malformed name or offset.
    MalformedLabel,
    /// The token starts with `^` but has a malformed offset.
    MalformedPCOffset,
    /// The integer does not fit the target width; `max` is the largest magnitude allowed.
    IntegerTooLarge { max: u16 },
    /// The token is well formed, but of another type than the argument needs.
    MismatchedType { expected_type: &'static str, actual_type: &'static str },
}

/// Why an argument of a command could not be read.
#[derive(Clone, Debug, PartialEq, Eq)]
pub enum ArgumentError {
    /// A required argument is missing; `actual_count` arguments came before it.
    MissingArgument { argument_name: &'static str, expected_count: u8, actual_count: u8 },
    /// The argument's text is not a valid value of its type.
    InvalidValue { argument_name: &'static str, string: String, error: ValueError },
    /// More arguments were given than the command takes.
    TooManyArguments { expected_count: u8, actual_count: u8 },
}

/// Why a command line could not be read as a command.
#[derive(Clone, Debug, PartialEq, Eq)]
pub enum CommandError {
    /// No command has this name.
    InvalidCommand { command_name: String },
    /// The command needs a subcommand, and none was given.
    MissingSubcommand { command_name: &'static str },
    /// The command has no subcommand of this name.
    InvalidSubcommand { command_name: &'static str, subcommand_name: String },
    /// An argument of the command could not be read.
    Argument(ArgumentError),
}

/// An argument error as plain values.
pub enum ArgumentErrorView {
    MissingArgument { argument_name: &'static str, expected_count: u8, actual_count: u8 },
    InvalidValue { argument_name: &'static str, string: Seq<char>, error: ValueError },
    TooManyArguments { expected_count: u8, actual_count: u8 },
}

impl View for ArgumentError {
    type V = ArgumentErrorView;

    open spec fn view(&self) -> ArgumentErrorView {
        match self {
            ArgumentError::MissingArgument { argument_name, expected_count, actual_count } => {
                ArgumentErrorView::MissingArgument {
                    argument_name: *argument_name,
                    expected_count: *expected_count,
                    actual_count: *actual_count,
                }
            },
            ArgumentError::InvalidValue { argument_name, string, error } => ArgumentErrorView::InvalidValue {
                argument_name: *argument_name,
                string: string@,
                error: *error,
            },
            ArgumentError::TooManyArguments { expected_count, actual_count } => {
                ArgumentErrorView::TooManyArguments {
                    expected_count: *expected_count,
                    actual_count: *actual_count,
                }
            },
        }
    }
}

/// A command error as plain values.
pub enum CommandErrorView {
    InvalidCommand { command_name: Seq<char> },
    MissingSubcommand { command_name: &'static str },
    InvalidSubcommand { command_name: &'static str, subcommand_name: Seq<char> },
    Argument(ArgumentErrorView),
}

impl View for CommandError {
    type V = CommandErrorView;

    open spec fn view(&self) -> CommandErrorView {
        match self {
            CommandError::InvalidCommand { command_name } => CommandErrorView::InvalidCommand {
                command_name: command_name@,
            },
            CommandError::MissingSubcommand { command_name } => CommandErrorView::MissingSubcommand {
                command_name: *command_name,
            },
            CommandError::InvalidSubcommand { command_name, subcommand_name } => {
                CommandErrorView::InvalidSubcommand {
                    command_name: *command_name,
                    subcommand_name: subcommand_name@,
                }
            },
            CommandError::Argument(e) => CommandErrorView::Argument(e@),
        }
    }
}

} // verus!
