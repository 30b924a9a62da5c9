//! The commands of the command line.
use vstd::prelude::*;
use crate::cli::error::{cli_error, cli_error_value};
use crate::error::PzlError;
use crate::text::str_eq;

verus! {

pub const MSG_UNKNOWN_COMMAND: &'static str = "未知命令: 请使用 help 命令查看使用帮助手册";

pub const COMMAND_BUILD: &'static str = "build";
pub const COMMAND_HELP: &'static str = "help";
pub const COMMAND_VERSION: &'static str = "version";

/// The error for a command that does not exist.
pub fn unknown() -> (e: PzlError)
    ensures
        e@ == cli_error_value(MSG_UNKNOWN_COMMAND@),
{
    cli_error(MSG_UNKNOWN_COMMAND)
}

/// A command of the command line.
#[derive(Debug, Clone, Copy, PartialEq, Eq, Structural)]
pub enum CliCommand {
    /// `build`, with the options that follow it.
    Build,
    /// `help`, or no command at all.
    Help,
    /// `version`.
    Version,
    /// Anything else.
    Unknown,
}

/// The command that the arguments `args` (the program's name first) give.
pub open spec fn command_of(args: Seq<Seq<char>>) -> CliCommand {
    if args.len() < 2 {
        CliCommand::Help
    } else if args[1] == COMMAND_BUILD@ {
        CliCommand::Build
    } else if args[1] == COMMAND_HELP@ {
        CliCommand::Help
    } else if args[1] == COMMAND_VERSION@ {
        CliCommand::Version
    } else {
        CliCommand::Unknown
    }
}

/// The command that the arguments `args` (the program's name first) give;
/// the options of `build` are the arguments after it.
pub fn cli_command(args: &Vec<String>) -> (r: CliCommand)
    ensures
        r == command_of(args@.map_values(|a: String| a@)),
{
    let ghost v = args@.map_values(|a: String| a@);
    if args.len() < 2 {
        return CliCommand::Help;
    }
    let command = args[1].as_str();
    assert(v[1] == args@[1]@);
    if str_eq(command, COMMAND_BUILD) {
        CliCommand::Build
    } else if str_eq(command, COMMAND_HELP) {
        CliCommand::Help
    } else if str_eq(command, COMMAND_VERSION) {
        CliCommand::Version
    } else {
        CliCommand::Unknown
    }
}

} // verus!
