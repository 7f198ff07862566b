//! What each command does: the decision is made here, from the command, the
//! working directory and the result of the path search; the caller carries
//! it out.
use vstd::prelude::*;

use crate::command::{is_builtin, Command, CommandView};
use crate::search::opt_view;
use crate::text::views;

verus! {

/// What the caller is to do for one command.
pub enum Action {
    /// Write the text, then a newline, to standard output.
    Print(String),
    /// End the process with the status.
    Terminate(i32),
    /// Change the working directory to the path, then report the outcome
    /// through `Shell::finish_cd`.
    ChangeDir(String),
    /// Run the program at the path with the arguments, and wait for it.
    Launch(String, Vec<String>),
}

/// An action as plain values.
pub enum ActionView {
    Print(Seq<char>),
    Terminate(i32),
    ChangeDir(Seq<char>),
    Launch(Seq<char>, Seq<Seq<char>>),
}

impl View for Action {
    type V = ActionView;

    open spec fn view(&self) -> ActionView {
        match self {
            Action::Print(t) => ActionView::Print(t@),
            Action::Terminate(code) => ActionView::Terminate(*code),
            Action::ChangeDir(p) => ActionView::ChangeDir(p@),
            Action::Launch(p, args) => ActionView::Launch(p@, views(args@)),
        }
    }
}

pub const BUILTIN_SUFFIX: &'static str = " is a shell builtin";

pub const FOUND_INFIX: &'static str = " is ";

pub const NOT_FOUND_SUFFIX: &'static str = " not found";

pub const COMMAND_NOT_FOUND_SUFFIX: &'static str = ": command not found";

pub const CD_PREFIX: &'static str = "cd: ";

pub const NO_SUCH_DIR_SUFFIX: &'static str = ": No such file or directory";

/// The name whose place on the search path the command needs, if any.
pub open spec fn lookup_target(c: CommandView) -> Option<Seq<char>> {
    match c {
        CommandView::Type(n) => if is_builtin(n) {
            None
        } else {
            Some(n)
        },
        CommandView::External(n, _) => Some(n),
        _ => None,
    }
}

/// What the command `c` does in the working directory `cwd`, where `found`
/// is the file that the path search gave for its name.
pub open spec fn step(cwd: Seq<char>, c: CommandView, found: Option<Seq<char>>) -> ActionView {
    match c {
        CommandView::Echo(t) => ActionView::Print(t),
        CommandView::Type(n) => if is_builtin(n) {
            ActionView::Print(n + BUILTIN_SUFFIX@)
        } else {
            match found {
                Some(p) => ActionView::Print(n + FOUND_INFIX@ + p),
                None => ActionView::Print(n + NOT_FOUND_SUFFIX@),
            }
        },
        CommandView::Exit(code) => ActionView::Terminate(code),
        CommandView::Pwd => ActionView::Print(cwd),
        CommandView::Cd(p) => ActionView::ChangeDir(p),
        CommandView::External(n, args) => match found {
            Some(p) => ActionView::Launch(p, args),
            None => ActionView::Print(n + COMMAND_NOT_FOUND_SUFFIX@),
        },
    }
}

/// The message for a directory change to `path` that failed.
pub open spec fn cd_failure(path: Seq<char>) -> Seq<char> {
    CD_PREFIX@ + path + NO_SUCH_DIR_SUFFIX@
}

/// The state the shell keeps between lines: its working directory.
pub struct Shell {
    cwd: String,
}

impl Shell {
    /// The working directory, as plain text.
    pub closed spec fn cwd_view(&self) -> Seq<char> {
        self.cwd@
    }

    /// A shell whose working directory is `cwd`.
    pub fn new(cwd: String) -> (r: Shell)
        ensures
            r.cwd_view() == cwd@,
    {
        Shell { cwd }
    }

    /// The working directory.
    pub fn cwd(&self) -> (r: &str)
        ensures
            r@ == self.cwd_view(),
    {
        self.cwd.as_str()
    }

    /// Decides what `cmd` does, where `found` is the file that the path search
    /// gave for the name of `Command::lookup_name`.
    pub fn execute(&self, cmd: &Command, found: Option<String>) -> (r: Action)
        ensures
            r@ == step(self.cwd_view(), cmd@, opt_view(found)),
    {
        match cmd {
            Command::Echo(t) => Action::Print(t.clone()),
            Command::Type(c) => {
                if c.is_shell_builtin() {
                    Action::Print(c.name.clone().concat(BUILTIN_SUFFIX))
                } else {
                    match found {
                        Some(p) => Action::Print(
                            c.name.clone().concat(FOUND_INFIX).concat(p.as_str()),
                        ),
                        None => Action::Print(c.name.clone().concat(NOT_FOUND_SUFFIX)),
                    }
                }
            },
            Command::Exit(code) => Action::Terminate(*code),
            Command::Pwd => Action::Print(self.cwd.clone()),
            Command::Cd(p) => Action::ChangeDir(p.clone()),
            Command::External(c) => match found {
                Some(p) => Action::Launch(p, c.args.clone()),
                None => Action::Print(c.name.clone().concat(COMMAND_NOT_FOUND_SUFFIX)),
            },
        }
    }

    /// Takes the outcome of a directory change to `path`: the new working
    /// directory where it succeeded, `None` where it failed. Returns the
    /// message to write, if any.
    pub fn finish_cd(&mut self, path: &str, outcome: Option<String>) -> (r: Option<String>)
        ensures
            match outcome {
                Some(d) => final(self).cwd_view() == d@ && r is None,
                None => final(self).cwd_view() == old(self).cwd_view() && opt_view(r) == Some(
                    cd_failure(path@),
                ),
            },
    {
        match outcome {
            Some(d) => {
                self.cwd = d;
                None
            },
            None => Some(String::from_str(CD_PREFIX).concat(path).concat(NO_SUCH_DIR_SUFFIX)),
        }
    }
}

impl Command {
    /// The name whose place on the search path this command needs, if any.
    pub fn lookup_name(&self) -> (r: Option<String>)
        ensures
            opt_view(r) == lookup_target(self@),
    {
        match self {
            Command::Type(c) => {
                if c.is_shell_builtin() {
                    None
                } else {
                    Some(c.name.clone())
                }
            },
            Command::External(c) => Some(c.name.clone()),
            _ => None,
        }
    }
}

} // verus!
