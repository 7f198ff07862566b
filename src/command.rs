//! The commands a line can hold, and the parser that reads one from a line.
use vstd::prelude::*;

use crate::text::{
    head, i32_value, parse_i32, rest, split_head, split_words, trim, trim_str, views, words,
};

verus! {

pub const ECHO_COMMAND: &'static str = "echo";

pub const TYPE_COMMAND: &'static str = "type";

pub const EXIT_COMMAND: &'static str = "exit";

pub const PWD_COMMAND: &'static str = "pwd";

pub const CD_COMMAND: &'static str = "cd";

/// Whether `name` names a command the shell runs itself.
pub open spec fn is_builtin(name: Seq<char>) -> bool {
    name == ECHO_COMMAND@ || name == TYPE_COMMAND@ || name == EXIT_COMMAND@ || name
        == PWD_COMMAND@ || name == CD_COMMAND@
}

/// A command name with its arguments.
pub struct ShellCommand {
    pub name: String,
    pub args: Vec<String>,
}

impl ShellCommand {
    /// A command named `name` whose arguments are the words of `arg`.
    pub fn new(name: &str, arg: &str) -> (r: Self)
        ensures
            r.name@ == name@,
            views(r.args@) == words(arg@),
    {
        ShellCommand { name: String::from_str(name), args: split_words(arg) }
    }

    /// Whether the command is one the shell runs itself.
    pub fn is_shell_builtin(&self) -> (r: bool)
        ensures
            r == is_builtin(self.name@),
    {
        let n = self.name.as_str();
        same_text(n, ECHO_COMMAND) || same_text(n, TYPE_COMMAND) || same_text(n, EXIT_COMMAND)
            || same_text(n, PWD_COMMAND) || same_text(n, CD_COMMAND)
    }
}

/// Whether `a` and `b` hold the same characters.
pub fn same_text(a: &str, b: &str) -> (r: bool)
    ensures
        r == (a@ == b@),
{
    String::from_str(a) == String::from_str(b)
}

/// A command read from one line.
pub enum Command {
    /// Writes its text.
    Echo(String),
    /// Tells what kind of command the name is.
    Type(ShellCommand),
    /// Ends the process with the status.
    Exit(i32),
    /// Writes the working directory.
    Pwd,
    /// Changes the working directory.
    Cd(String),
    /// Runs a program found on the search path.
    External(ShellCommand),
}

/// What a command holds, as plain values.
pub enum CommandView {
    Echo(Seq<char>),
    Type(Seq<char>),
    Exit(i32),
    Pwd,
    Cd(Seq<char>),
    External(Seq<char>, Seq<Seq<char>>),
}

impl View for Command {
    type V = CommandView;

    open spec fn view(&self) -> CommandView {
        match self {
            Command::Echo(t) => CommandView::Echo(t@),
            Command::Type(c) => CommandView::Type(c.name@),
            Command::Exit(code) => CommandView::Exit(*code),
            Command::Pwd => CommandView::Pwd,
            Command::Cd(p) => CommandView::Cd(p@),
            Command::External(c) => CommandView::External(c.name@, views(c.args@)),
        }
    }
}

/// Why a line holds no command.
pub enum ParseError {
    /// The argument of `exit` is no integer in the range of an `i32`.
    InvalidExitCode(String),
}

/// The command that `line` holds, or, where `exit` is given no valid status,
/// the argument it was given.
pub open spec fn parse_line(line: Seq<char>) -> Result<CommandView, Seq<char>> {
    let t = trim(line);
    let h = head(t);
    let arg = trim(rest(t));
    if h == ECHO_COMMAND@ {
        Ok(CommandView::Echo(arg))
    } else if h == TYPE_COMMAND@ {
        Ok(CommandView::Type(arg))
    } else if h == EXIT_COMMAND@ {
        match i32_value(arg) {
            Some(code) => Ok(CommandView::Exit(code)),
            None => Err(arg),
        }
    } else if h == PWD_COMMAND@ {
        Ok(CommandView::Pwd)
    } else if h == CD_COMMAND@ {
        Ok(CommandView::Cd(arg))
    } else {
        Ok(CommandView::External(h, words(rest(t))))
    }
}

/// A parse result as plain values.
pub open spec fn parsed_view(r: Result<Command, ParseError>) -> Result<CommandView, Seq<char>> {
    match r {
        Ok(c) => Ok(c@),
        Err(ParseError::InvalidExitCode(a)) => Err(a@),
    }
}

impl Command {
    /// Reads the command of one input line.
    pub fn parse(input: &str) -> (r: Result<Command, ParseError>)
        ensures
            parsed_view(r) == parse_line(input@),
            r matches Ok(Command::Type(c)) ==> c.args@.len() == 0,
    {
        let t = trim_str(input);
        let (h, rest_text) = split_head(t);
        let arg = trim_str(rest_text);
        if same_text(h, ECHO_COMMAND) {
            Ok(Command::Echo(String::from_str(arg)))
        } else if same_text(h, TYPE_COMMAND) {
            let c = ShellCommand::new(arg, "");
            proof {
                assert(words(""@) == Seq::<Seq<char>>::empty()) by {
                    reveal_strlit("");
                }
                assert(c.args@.len() == views(c.args@).len());
            }
            Ok(Command::Type(c))
        } else if same_text(h, EXIT_COMMAND) {
            match parse_i32(arg) {
                Some(code) => Ok(Command::Exit(code)),
                None => Err(ParseError::InvalidExitCode(String::from_str(arg))),
            }
        } else if same_text(h, PWD_COMMAND) {
            Ok(Command::Pwd)
        } else if same_text(h, CD_COMMAND) {
            Ok(Command::Cd(String::from_str(arg)))
        } else {
            Ok(Command::External(ShellCommand::new(h, rest_text)))
        }
    }
}

} // verus!
