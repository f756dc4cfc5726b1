//! The command line of the client: one subcommand, and for `logs` an
//! optional flag.

use crate::text::same_text;
use vstd::prelude::*;

verus! {

/// What the client is asked to do.
#[derive(Clone, Copy, Debug, PartialEq, Eq, Structural)]
pub enum Commands {
    Init,
    Deploy,
    Redeploy,
    Status,
    Logs { follow: bool },
    Stop,
}

/// A parsed command line.
#[derive(Clone, Copy, Debug, PartialEq, Eq, Structural)]
pub struct Cli {
    pub command: Commands,
}

/// The subcommand that a word names, `logs` without its flag.
pub open spec fn subcommand(word: Seq<char>) -> Option<Commands> {
    if word == "init"@ {
        Some(Commands::Init)
    } else if word == "deploy"@ {
        Some(Commands::Deploy)
    } else if word == "redeploy"@ {
        Some(Commands::Redeploy)
    } else if word == "status"@ {
        Some(Commands::Status)
    } else if word == "logs"@ {
        Some(Commands::Logs { follow: false })
    } else if word == "stop"@ {
        Some(Commands::Stop)
    } else {
        None
    }
}

/// The word asks to follow the logs.
pub open spec fn is_follow_flag(word: Seq<char>) -> bool {
    word == "--follow"@ || word == "-f"@
}

/// What the arguments after the program's name ask for: one subcommand
/// alone, or `logs` with the flag to follow; anything else asks for
/// nothing.
pub open spec fn parsed(args: Seq<Seq<char>>) -> Option<Cli> {
    if args.len() == 1 {
        match subcommand(args[0]) {
            Some(command) => Some(Cli { command }),
            None => None,
        }
    } else if args.len() == 2 && args[0] == "logs"@ && is_follow_flag(args[1]) {
        Some(Cli { command: Commands::Logs { follow: true } })
    } else {
        None
    }
}

/// The subcommand that a word names.
pub fn read_subcommand(word: &str) -> (command: Option<Commands>)
    ensures
        command == subcommand(word@),
{
    if same_text(word, "init") {
        Some(Commands::Init)
    } else if same_text(word, "deploy") {
        Some(Commands::Deploy)
    } else if same_text(word, "redeploy") {
        Some(Commands::Redeploy)
    } else if same_text(word, "status") {
        Some(Commands::Status)
    } else if same_text(word, "logs") {
        Some(Commands::Logs { follow: false })
    } else if same_text(word, "stop") {
        Some(Commands::Stop)
    } else {
        None
    }
}

/// Reads the arguments that follow the program's name.
pub fn parse_cli(args: &Vec<String>) -> (cli: Option<Cli>)
    ensures
        cli == parsed(args@.map_values(|a: String| a@)),
{
    if args.len() == 1 {
        match read_subcommand(args[0].as_str()) {
            Some(command) => Some(Cli { command }),
            None => None,
        }
    } else if args.len() == 2 && same_text(args[0].as_str(), "logs") && (same_text(
        args[1].as_str(),
        "--follow",
    ) || same_text(args[1].as_str(), "-f")) {
        Some(Cli { command: Commands::Logs { follow: true } })
    } else {
        None
    }
}

} // verus!
