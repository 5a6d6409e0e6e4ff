//! The commands that the application state applies, as a parser hands them
//! over, and their errors.
use vstd::prelude::*;
use vstd::string::StringExecFns;
use crate::habit::GoalKind;
use crate::text::{decimal, unsigned_text};

verus! {

/// One command of the command line.
#[derive(Debug)]
pub enum Command {
    Add(String, Option<GoalKind>, bool),
    Delete(String),
    TrackUp(String),
    TrackDown(String),
    Help(Option<String>),
    Write,
    Quit,
    WriteAndQuit,
    MonthPrev,
    MonthNext,
    Blank,
    BackFill(String),
    Rename(String, String),
    Hide(String),
    Unhide(String),
}

/// Why a command line was not understood.
#[derive(Debug)]
pub enum CommandLineError {
    InvalidCommand(String),
    InvalidArg(u32),
    NotEnoughArgs(String, u32),
}

impl CommandLineError {
    pub open spec fn text(&self) -> Seq<char> {
        match self {
            CommandLineError::InvalidCommand(s) => "Invalid command: `"@ + s@ + "`"@,
            CommandLineError::InvalidArg(p) => "Invalid argument at position "@ + decimal(*p as nat),
            CommandLineError::NotEnoughArgs(s, n) => "Command `"@ + s@ + "` requires atleast "@ + decimal(
                *n as nat,
            ) + " argument(s)!"@,
        }
    }

    /// The error as the message line shows it.
    pub fn message(&self) -> (r: String)
        ensures
            r@ == self.text(),
    {
        match self {
            CommandLineError::InvalidCommand(s) => {
                let mut m = String::from_str("Invalid command: `");
                m.append(s);
                m.append("`");
                m
            },
            CommandLineError::InvalidArg(p) => {
                let mut m = String::from_str("Invalid argument at position ");
                m.append(&unsigned_text(*p as u128));
                m
            },
            CommandLineError::NotEnoughArgs(s, n) => {
                let mut m = String::from_str("Command `");
                m.append(s);
                m.append("` requires atleast ");
                m.append(&unsigned_text(*n as u128));
                m.append(" argument(s)!");
                m
            },
        }
    }
}

/// The help line for each topic, by the topic's name or alias.
pub open spec fn help_for(t: Seq<char>) -> Seq<char> {
    if t == "a"@ || t == "add"@ {
        "add <habit-name> [goal]     (alias: a)"@
    } else if t == "aa"@ || t == "add-auto"@ {
        "add-auto <habit-name> [goal]     (alias: aa)"@
    } else if t == "d"@ || t == "delete"@ {
        "delete <habit-name>     (alias: d)"@
    } else if t == "mprev"@ || t == "month-prev"@ {
        "month-prev     (alias: mprev)"@
    } else if t == "mnext"@ || t == "month-next"@ {
        "month-next     (alias: mnext)"@
    } else if t == "tup"@ || t == "track-up"@ {
        "track-up <auto-habit-name>     (alias: tup)"@
    } else if t == "tdown"@ || t == "track-down"@ {
        "track-down <auto-habit-name>     (alias: tdown)"@
    } else if t == "q"@ || t == "quit"@ {
        "quit dijo"@
    } else if t == "w"@ || t == "write"@ {
        "write current state to disk   (alias: w)"@
    } else if t == "h"@ || t == "?"@ || t == "help"@ {
        "help [<command>|commands|keys]     (aliases: h, ?)"@
    } else if t == "cmds"@ || t == "commands"@ {
        "add, add-auto, delete, month-{prev,next}, track-{up,down}, help, quit"@
    } else if t == "keys"@ {
        "TODO"@
    } else if t == "wq"@ {
        "write current state to disk and quit dijo"@
    } else if t == "backfill"@ || t == "bf"@ {
        "backfill <habit-name>    (alias: bf)"@
    } else {
        "unknown command or help topic."@
    }
}

fn is(t: &String, word: &str) -> (r: bool)
    ensures
        r == (t@ == word@),
{
    *t == String::from_str(word)
}

/// The help line for topic `t`.
pub fn help_text(t: &String) -> (r: &'static str)
    ensures
        r@ == help_for(t@),
{
    if is(t, "a") || is(t, "add") {
        "add <habit-name> [goal]     (alias: a)"
    } else if is(t, "aa") || is(t, "add-auto") {
        "add-auto <habit-name> [goal]     (alias: aa)"
    } else if is(t, "d") || is(t, "delete") {
        "delete <habit-name>     (alias: d)"
    } else if is(t, "mprev") || is(t, "month-prev") {
        "month-prev     (alias: mprev)"
    } else if is(t, "mnext") || is(t, "month-next") {
        "month-next     (alias: mnext)"
    } else if is(t, "tup") || is(t, "track-up") {
        "track-up <auto-habit-name>     (alias: tup)"
    } else if is(t, "tdown") || is(t, "track-down") {
        "track-down <auto-habit-name>     (alias: tdown)"
    } else if is(t, "q") || is(t, "quit") {
        "quit dijo"
    } else if is(t, "w") || is(t, "write") {
        "write current state to disk   (alias: w)"
    } else if is(t, "h") || is(t, "?") || is(t, "help") {
        "help [<command>|commands|keys]     (aliases: h, ?)"
    } else if is(t, "cmds") || is(t, "commands") {
        "add, add-auto, delete, month-{prev,next}, track-{up,down}, help, quit"
    } else if is(t, "keys") {
        "TODO"
    } else if is(t, "wq") {
        "write current state to disk and quit dijo"
    } else if is(t, "backfill") || is(t, "bf") {
        "backfill <habit-name>    (alias: bf)"
    } else {
        "unknown command or help topic."
    }
}

} // verus!
