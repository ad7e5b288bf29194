use vstd::prelude::*;

use crate::text::{has_prefix, same_text, starts_with, trim, trimmed};

verus! {

/// A line typed at the prompt, read as a command.
#[derive(Debug)]
pub enum Command {
    /// `q` or `quit`
    Quit,
    /// `..` or `up`
    Up,
    /// `cd <dir>`, with the text after `cd `
    ChangeDir(String),
    /// `help`
    Help,
    /// an empty line
    Nothing,
    /// anything else, trimmed
    Unknown(String),
}

/// `c` is the command that `line` reads as.
pub open spec fn reads_as(line: Seq<char>, c: Command) -> bool {
    let t = trimmed(line);
    if t == "q"@ || t == "quit"@ {
        c is Quit
    } else if t == ".."@ || t == "up"@ {
        c is Up
    } else if has_prefix(t, "cd "@) {
        (c matches Command::ChangeDir(d) && d@ == t.subrange(3, t.len() as int))
    } else if t == "help"@ {
        c is Help
    } else if t.len() == 0 {
        c is Nothing
    } else {
        (c matches Command::Unknown(u) && u@ == t)
    }
}

/// Reads a line typed at the prompt, ignoring leading and trailing white space.
pub fn parse_command(line: &str) -> (c: Command)
    ensures
        reads_as(line@, c),
{
    let t = trim(line);
    let ts = t.as_str();
    if same_text(ts, "q") || same_text(ts, "quit") {
        Command::Quit
    } else if same_text(ts, "..") || same_text(ts, "up") {
        Command::Up
    } else if starts_with(ts, "cd ") {
        proof {
            reveal_strlit("cd ");
        }
        let n = ts.unicode_len();
        Command::ChangeDir(String::from_str(ts.substring_char(3, n)))
    } else if same_text(ts, "help") {
        Command::Help
    } else if ts.unicode_len() == 0 {
        Command::Nothing
    } else {
        Command::Unknown(t)
    }
}

/// What the shell does after a command.
#[derive(Debug)]
pub enum Reply {
    /// scan the (possibly new) current directory again
    Rescan,
    /// leave the loop
    Exit,
    /// list the commands, then rescan
    ShowHelp,
    /// the `cd` target is not a directory; the current directory stays
    NotFound(String),
    /// the line is no command
    Unknown(String),
}

/// The shell's state: the directory being inspected.
#[derive(Debug)]
pub struct Session {
    pub current_path: String,
}

impl Session {
    pub fn new(current_path: String) -> (s: Session)
        ensures
            s.current_path@ == current_path@,
    {
        Session { current_path }
    }

    /// The next state and the reply for `command`. `resolved` is what the
    /// shell found on disk for it: the parent of the current directory for
    /// `Up` (none at the root), the canonical path of the target for
    /// `ChangeDir` where it is a directory; it is not read for other commands.
    pub fn step(&self, command: &Command, resolved: Option<String>) -> (r: (Session, Reply))
        ensures
            match command {
                Command::Quit => r.0.current_path@ == self.current_path@ && r.1 is Exit,
                Command::Up => r.1 is Rescan && r.0.current_path@ == match resolved {
                    Some(p) => p@,
                    None => self.current_path@,
                },
                Command::ChangeDir(d) => match resolved {
                    Some(p) => r.0.current_path@ == p@ && r.1 is Rescan,
                    None => r.0.current_path@ == self.current_path@
                        && (r.1 matches Reply::NotFound(m) && m@ == d@),
                },
                Command::Help => r.0.current_path@ == self.current_path@ && r.1 is ShowHelp,
                Command::Nothing => r.0.current_path@ == self.current_path@ && r.1 is Rescan,
                Command::Unknown(u) => r.0.current_path@ == self.current_path@
                    && (r.1 matches Reply::Unknown(m) && m@ == u@),
            },
    {
        let here = Session { current_path: self.current_path.clone() };
        match command {
            Command::Quit => (here, Reply::Exit),
            Command::Up => match resolved {
                Some(p) => (Session { current_path: p }, Reply::Rescan),
                None => (here, Reply::Rescan),
            },
            Command::ChangeDir(d) => match resolved {
                Some(p) => (Session { current_path: p }, Reply::Rescan),
                None => (here, Reply::NotFound(d.clone())),
            },
            Command::Help => (here, Reply::ShowHelp),
            Command::Nothing => (here, Reply::Rescan),
            Command::Unknown(u) => (here, Reply::Unknown(u.clone())),
        }
    }
}

} // verus!
