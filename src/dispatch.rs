//! The dispatcher: decides whether a command runs as a pipeline, as a
//! builtin, or as an external program.
use vstd::prelude::*;
use crate::command::{
    ShellCommand, CommandView, PipedShellCommand, command_of, contains_separator, has_separator,
    pipeline_of,
};
use crate::lexer::{lex_words, views};
use crate::text::{push_str, same_text, string_of};

verus! {

/// The builtins, a closed set; `exit` belongs to the read loop instead.
#[derive(Debug, Clone, Copy, PartialEq, Eq, Structural)]
pub enum Builtin {
    Calc,
    Cat,
    Cd,
    Echo,
    Help,
    Ls,
    Pwd,
}

/// The builtin that a name names, if any.
pub open spec fn builtin_named(n: Seq<char>) -> Option<Builtin> {
    if n == "calc"@ {
        Some(Builtin::Calc)
    } else if n == "cat"@ {
        Some(Builtin::Cat)
    } else if n == "cd"@ {
        Some(Builtin::Cd)
    } else if n == "echo"@ {
        Some(Builtin::Echo)
    } else if n == "help"@ {
        Some(Builtin::Help)
    } else if n == "ls"@ {
        Some(Builtin::Ls)
    } else if n == "pwd"@ {
        Some(Builtin::Pwd)
    } else {
        None
    }
}

/// Looks a name up in the builtin table; see `builtin_named`.
pub fn builtin_of(name: &str) -> (r: Option<Builtin>)
    ensures
        r == builtin_named(name@),
{
    if same_text(name, "calc") {
        Some(Builtin::Calc)
    } else if same_text(name, "cat") {
        Some(Builtin::Cat)
    } else if same_text(name, "cd") {
        Some(Builtin::Cd)
    } else if same_text(name, "echo") {
        Some(Builtin::Echo)
    } else if same_text(name, "help") {
        Some(Builtin::Help)
    } else if same_text(name, "ls") {
        Some(Builtin::Ls)
    } else if same_text(name, "pwd") {
        Some(Builtin::Pwd)
    } else {
        None
    }
}

/// What to do with one command.
pub enum Action {
    /// Run these stages as a pipeline.
    Pipeline(PipedShellCommand),
    /// Call a builtin on these arguments.
    Builtin(Builtin, Vec<String>),
    /// Spawn the named program with these arguments.
    External(String, Vec<String>),
}

pub enum ActionView {
    Pipeline(Seq<CommandView>),
    Builtin(Builtin, Seq<Seq<char>>),
    External(Seq<char>, Seq<Seq<char>>),
}

impl View for Action {
    type V = ActionView;

    open spec fn view(&self) -> ActionView {
        match self {
            Action::Pipeline(p) => ActionView::Pipeline(p@),
            Action::Builtin(b, args) => ActionView::Builtin(*b, views(args@)),
            Action::External(name, args) => ActionView::External(name@, views(args@)),
        }
    }
}

/// The decision for a command, first match first: a marker among the
/// arguments makes a pipeline; else a builtin name calls the builtin; else
/// the name is spawned.
pub open spec fn action_of(c: CommandView) -> ActionView {
    if has_separator(c.args) {
        ActionView::Pipeline(pipeline_of(c))
    } else {
        match builtin_named(c.name) {
            Some(b) => ActionView::Builtin(b, c.args),
            None => ActionView::External(c.name, c.args),
        }
    }
}

/// Decides what to do with a command; see `action_of`.
pub fn dispatch(command: ShellCommand) -> (r: Action)
    ensures
        r@ == action_of(command@),
        r matches Action::Pipeline(p) ==> p@.len() >= 1,
{
    proof {
        crate::command::lemma_pipeline_shape(command@);
    }
    if contains_separator(&command.args) {
        let pipe = PipedShellCommand::from(&command);
        Action::Pipeline(pipe)
    } else {
        match builtin_of(command.name.as_str()) {
            Some(b) => Action::Builtin(b, command.args),
            None => Action::External(command.name, command.args),
        }
    }
}

/// Decides what to do with a raw line: nothing for a line without words,
/// else the action for its descriptor.
pub fn process_input(input: &str) -> (r: Option<Action>)
    ensures
        lex_words(input@).len() == 0 ==> r is None,
        lex_words(input@).len() > 0 ==> (r matches Some(a) && a@ == action_of(command_of(input@))),
        r matches Some(Action::Pipeline(p)) ==> p@.len() >= 1,
{
    match ShellCommand::new(input) {
        None => None,
        Some(command) => Some(dispatch(command)),
    }
}

/// A line whose arguments hold no marker and whose first word names a
/// builtin calls exactly that builtin, with the other words as its
/// arguments, and spawns nothing.
pub proof fn lemma_builtin_line(line: Seq<char>)
    requires
        lex_words(line).len() > 0,
        !has_separator(lex_words(line).skip(1)),
        builtin_named(lex_words(line)[0]) is Some,
    ensures
        action_of(command_of(line)) == ActionView::Builtin(
            builtin_named(lex_words(line)[0])->Some_0,
            lex_words(line).skip(1),
        ),
{
}

/// The line printed when an external program cannot be spawned.
pub open spec fn not_found_text(name: Seq<char>) -> Seq<char> {
    "Sorry, '"@ + name + "' was not found!"@
}

/// The report for a program that could not be spawned; see
/// `not_found_text`.
pub fn not_found_message(name: &str) -> (r: String)
    ensures
        r@ == not_found_text(name@),
{
    let mut r = string_of("Sorry, '");
    push_str(&mut r, name);
    push_str(&mut r, "' was not found!");
    r
}

} // verus!
