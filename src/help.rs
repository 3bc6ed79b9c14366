//! The `help` builtin.
use vstd::prelude::*;
use crate::lexer::views;
use crate::text::{same_text, string_of};

verus! {

pub open spec fn builtin_list() -> Seq<char> {
    "crust [https://github.com/Phate6660/crust]\nbuiltins:\n---------\ncalc\ncd\necho\nexit\nhelp\nls\npwd\nprompt"@
}

/// The list shown for a topic that is not one.
pub open spec fn unknown_topic_list() -> Seq<char> {
    "cRUSTy [https://github.com/Phate6660/crust]\nbuiltins:\n---------\ncalc\ncd\necho\nexit\nhelp\nls\npwd\nprompt"@
}

/// The text for one topic; a list of the builtins for a topic that is not
/// one.
pub open spec fn topic_text(t: Seq<char>) -> Seq<char> {
    if t == "calc"@ {
        "Supports +, -, /, x for two numbers.\nE.g. 1+1, 4/2, 2x4, 2-1"@
    } else if t == "cat"@ {
        "Support printing file output, and additionally showing line numbers with `-n`."@
    } else if t == "cd"@ {
        "Takes a absolute or relative path and changes directory to it.\n`cd -` will take you to your previous dir."@
    } else if t == "echo"@ {
        "Takes n amount of arguments and prints them to stdout."@
    } else if t == "exit"@ {
        "Exits the shell with the given exit code."@
    } else if t == "help"@ {
        "Returns information about the builtin commands."@
    } else if t == "ls"@ {
        "Lists the content of a directory."@
    } else if t == "pwd"@ {
        "Prints the working directory."@
    } else if t == "prompt"@ {
        "Can be set to a static string, by just setting the string in the PROMPT env variable,\nor can be set to a dynamic prompt, by including a command to be executed, by delimiting it with %(),in the prompt string.\nVariables are also supported, such as %{U} for user, %{C} for CWD, etc.\ne.G.: `%(whoami)E@%(hostname)> `. This will, for my case, produce `zeno@aether> `."@
    } else {
        unknown_topic_list()
    }
}

/// What `help` prints: the list of builtins without an argument, the text
/// for its topic with one, and a complaint with more.
pub open spec fn help_text(args: Seq<Seq<char>>) -> Seq<char> {
    if args.len() == 0 {
        builtin_list()
    } else if args.len() > 1 {
        "Please specify only one command."@
    } else {
        topic_text(args[0])
    }
}

fn topic(t: &str) -> (r: String)
    ensures
        r@ == topic_text(t@),
{
    if same_text(t, "calc") {
        string_of("Supports +, -, /, x for two numbers.\nE.g. 1+1, 4/2, 2x4, 2-1")
    } else if same_text(t, "cat") {
        string_of("Support printing file output, and additionally showing line numbers with `-n`.")
    } else if same_text(t, "cd") {
        string_of("Takes a absolute or relative path and changes directory to it.\n`cd -` will take you to your previous dir.")
    } else if same_text(t, "echo") {
        string_of("Takes n amount of arguments and prints them to stdout.")
    } else if same_text(t, "exit") {
        string_of("Exits the shell with the given exit code.")
    } else if same_text(t, "help") {
        string_of("Returns information about the builtin commands.")
    } else if same_text(t, "ls") {
        string_of("Lists the content of a directory.")
    } else if same_text(t, "pwd") {
        string_of("Prints the working directory.")
    } else if same_text(t, "prompt") {
        string_of("Can be set to a static string, by just setting the string in the PROMPT env variable,\nor can be set to a dynamic prompt, by including a command to be executed, by delimiting it with %(),in the prompt string.\nVariables are also supported, such as %{U} for user, %{C} for CWD, etc.\ne.G.: `%(whoami)E@%(hostname)> `. This will, for my case, produce `zeno@aether> `.")
    } else {
        string_of("cRUSTy [https://github.com/Phate6660/crust]\nbuiltins:\n---------\ncalc\ncd\necho\nexit\nhelp\nls\npwd\nprompt")
    }
}

/// The text of `help`; see `help_text`.
pub fn help(args: &Vec<String>) -> (r: String)
    ensures
        r@ == help_text(views(args@)),
{
    if args.len() == 0 {
        string_of("crust [https://github.com/Phate6660/crust]\nbuiltins:\n---------\ncalc\ncd\necho\nexit\nhelp\nls\npwd\nprompt")
    } else if args.len() > 1 {
        string_of("Please specify only one command.")
    } else {
        topic(args[0].as_str())
    }
}

} // verus!
