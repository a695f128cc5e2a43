//! The command line: which command the arguments name, and the texts shown
//! for help and for a command that is not known.

use vstd::prelude::*;
use vstd::string::*;
use crate::text::{same_text, texts};

verus! {

/// What the program was asked to do.
#[derive(Debug)]
pub enum Command {
    /// Show the usage text.
    Help,
    /// Capture the clipboard and add the record to the history.
    Store,
    /// Let the user pick a record and put it back on the clipboard.
    Pick,
    /// Print the path of the storage file.
    Storage,
    /// Reset the history to empty.
    Clean,
    /// The word is no command.
    Unknown(String),
}

/// What stands before the program's name in the usage text.
pub const USAGE_HEAD: &'static str = "Usage:\n\t";

/// What follows the program's name in the usage text.
pub const USAGE_TAIL: &'static str =
    " COMMAND\n\nWhere COMMAND is one of the following:\n\t-h, --help, help\tShows this message.\n\tstore\t\t\tAppends current clipboard state to history file.\n\tpick\t\t\tOpens a rofi dialog to choose a clipboard entry.\n\tstorage\t\t\tPrints history file's path.\n\tclean\t\t\tClears clipboard history.\n";

/// The usage text for a program called `exec_path`.
pub open spec fn help_text(exec_path: Seq<char>) -> Seq<char> {
    USAGE_HEAD@ + exec_path + USAGE_TAIL@
}

/// The complaint about a word that is no command.
pub open spec fn unknown_text(word: Seq<char>, exec_path: Seq<char>) -> Seq<char> {
    "Unknown command: '"@ + word + "'.\nRun '"@ + exec_path + " -h' for help."@
}

/// Whether the arguments ask for `command`. The first argument is the
/// program's name; the second names the command. Without a second argument
/// the usage text is asked for.
pub open spec fn asks_for(args: Seq<Seq<char>>, command: Command) -> bool {
    if args.len() < 2 {
        command is Help
    } else if args[1] == "help"@ || args[1] == "-h"@ || args[1] == "--help"@ {
        command is Help
    } else if args[1] == "store"@ {
        command is Store
    } else if args[1] == "pick"@ {
        command is Pick
    } else if args[1] == "storage"@ {
        command is Storage
    } else if args[1] == "clean"@ {
        command is Clean
    } else {
        command matches Command::Unknown(word) && word@ == args[1]
    }
}

/// The command that the arguments name.
pub fn parse_command(args: &Vec<String>) -> (command: Command)
    ensures
        asks_for(texts(args@), command),
{
    if args.len() < 2 {
        return Command::Help;
    }
    assert(texts(args@)[1] == args@[1]@);
    let word = args[1].as_str();
    if same_text(word, "help") || same_text(word, "-h") || same_text(word, "--help") {
        Command::Help
    } else if same_text(word, "store") {
        Command::Store
    } else if same_text(word, "pick") {
        Command::Pick
    } else if same_text(word, "storage") {
        Command::Storage
    } else if same_text(word, "clean") {
        Command::Clean
    } else {
        Command::Unknown(args[1].clone())
    }
}

/// The usage text for a program called `exec_path`.
pub fn help(exec_path: &str) -> (text: String)
    ensures
        text@ == help_text(exec_path@),
{
    let mut text = String::from_str(USAGE_HEAD);
    text.append(exec_path);
    text.append(USAGE_TAIL);
    text
}

/// The complaint about `word`, which is no command, for a program called
/// `exec_path`.
pub fn unknown_command(word: &str, exec_path: &str) -> (text: String)
    ensures
        text@ == unknown_text(word@, exec_path@),
{
    let mut text = String::from_str("Unknown command: '");
    text.append(word);
    text.append("'.\nRun '");
    text.append(exec_path);
    text.append(" -h' for help.");
    text
}

} // verus!
