//! The shell's state and the decisions of the read loop around it: `cd`,
//! `exit`, and the `-c` command line.
use vstd::prelude::*;
use crate::calc::{all_digits, digits_value, find, find_char, parse_digits, parse_i32, parse_i32_text};
use crate::lexer::views;
use crate::text::{push_char, push_str, same_text, string_of, trim, trim_end, trim_start};

verus! {

/// Everything the shell keeps between commands.
pub struct ShellState {
    pub args: Vec<String>,
    pub prompt: String,
    pub user: String,
    pub home: String,
    pub na: String,
    pub share_dir: String,
    pub cd_prev_dir: Option<String>,
    pub config_dir: String,
    pub config: String,
    pub history_file: String,
    pub edit_mode: String,
    pub bell_style: String,
    pub history_auto_add_lines: bool,
    pub history_size: usize,
    pub history_spaces_ignored: bool,
}

pub open spec fn default_prompt() -> Seq<char> {
    "F<GREEN>B<BLACK>%{b}%{u}[crust]-[%{CL}]:%{re} "@
}

/// The home directory assumed for a user when none is known.
pub open spec fn home_of(user: Seq<char>) -> Seq<char> {
    "/home/"@ + user
}

impl ShellState {
    /// The state at start-up, from the process arguments, the prompt and home
    /// directory found in the environment (if any) and the user's name. The
    /// data, configuration and history paths lie under the home directory;
    /// there is no previous directory yet.
    pub fn init(args: Vec<String>, prompt: Option<String>, user: String, home: Option<String>) -> (r:
        ShellState)
        ensures
            r.args == args,
            r.user == user,
            r.prompt@ == (match prompt {
                Some(p) => p@,
                None => default_prompt(),
            }),
            r.home@ == (match home {
                Some(h) => h@,
                None => home_of(user@),
            }),
            r.na@ == "no args"@,
            r.share_dir@ == r.home@ + "/.local/share/crust"@,
            r.config_dir@ == r.home@ + "/.config/crust/"@,
            r.config@ == r.config_dir@ + "config"@,
            r.history_file@ == r.share_dir@ + "/crust.history"@,
            r.cd_prev_dir is None,
            r.edit_mode@ == "emacs"@,
            r.bell_style@ == "nothing"@,
            r.history_auto_add_lines,
            r.history_size == 500,
            r.history_spaces_ignored,
    {
        let prompt = match prompt {
            Some(p) => p,
            None => string_of("F<GREEN>B<BLACK>%{b}%{u}[crust]-[%{CL}]:%{re} "),
        };
        let home = match home {
            Some(h) => h,
            None => {
                let mut h = string_of("/home/");
                push_str(&mut h, user.as_str());
                h
            },
        };
        let mut share_dir = home.clone();
        push_str(&mut share_dir, "/.local/share/crust");
        let mut config_dir = home.clone();
        push_str(&mut config_dir, "/.config/crust/");
        let mut config = config_dir.clone();
        push_str(&mut config, "config");
        let mut history_file = share_dir.clone();
        push_str(&mut history_file, "/crust.history");
        ShellState {
            args,
            prompt,
            user,
            home,
            na: string_of("no args"),
            share_dir,
            cd_prev_dir: None,
            config_dir,
            config,
            history_file,
            edit_mode: string_of("emacs"),
            bell_style: string_of("nothing"),
            history_auto_add_lines: true,
            history_size: 500,
            history_spaces_ignored: true,
        }
    }
}

/// What `cd` asks of its caller.
pub enum CdOutcome {
    /// Change the working directory to this path.
    ChangeTo(String),
    /// `cd -` came before any other `cd`: report that there is no previous
    /// directory.
    NoPrevious,
}

/// The previous directory that `cd` leaves in the state, and where it goes:
/// with no argument to the user's home, with `-` to the previous directory
/// (`None` when there is none, and then nothing changes), else to its first
/// argument. Each `cd` that goes somewhere records the directory it leaves.
pub open spec fn cd_target(
    prev: Option<Seq<char>>,
    user: Seq<char>,
    args: Seq<Seq<char>>,
) -> Option<Seq<char>> {
    if args.len() == 0 {
        Some(home_of(user))
    } else if args[0] == "-"@ {
        prev
    } else {
        Some(args[0])
    }
}

pub open spec fn opt_text(o: Option<String>) -> Option<Seq<char>> {
    match o {
        Some(s) => Some(s@),
        None => None,
    }
}

/// Decides a `cd` from the state, its arguments and the directory that the
/// shell is in; see `cd_target`.
pub fn cd(shell_state: &mut ShellState, args: &Vec<String>, current_dir: String) -> (r: CdOutcome)
    ensures
        ({
            let target = cd_target(opt_text(old(shell_state).cd_prev_dir), old(shell_state).user@, views(args@));
            match target {
                Some(t) => r matches CdOutcome::ChangeTo(p) && p@ == t
                    && *final(shell_state) == (ShellState { cd_prev_dir: Some(current_dir), ..*old(shell_state) }),
                None => r is NoPrevious && *final(shell_state) == *old(shell_state),
            }
        }),
{
    let target = if args.len() == 0 {
        let mut h = string_of("/home/");
        push_str(&mut h, shell_state.user.as_str());
        h
    } else if same_text(args[0].as_str(), "-") {
        match &shell_state.cd_prev_dir {
            Some(p) => p.clone(),
            None => return CdOutcome::NoPrevious,
        }
    } else {
        args[0].clone()
    };
    shell_state.cd_prev_dir = Some(current_dir);
    CdOutcome::ChangeTo(target)
}

/// The exit code that a line of the read loop asks for: `None` unless the
/// line starts with `exit`; else the number after its first space, or 0
/// when there is none or it is not an `i32`.
pub open spec fn exit_code_of(line: Seq<char>) -> Option<i32> {
    if line.len() >= 4 && line.take(4) == "exit"@ {
        if line.contains(' ') {
            let rest = line.skip(find(line, ' ') + 1);
            match parse_i32(rest.take(find(rest, ' '))) {
                Some(v) => Some(v),
                None => Some(0),
            }
        } else {
            Some(0)
        }
    } else {
        None
    }
}

/// Reads an `exit` line; see `exit_code_of`.
pub fn exit_request(line: &str) -> (r: Option<i32>)
    ensures
        r == exit_code_of(line@),
{
    let n = line.unicode_len();
    if n < 4 || !same_text(line.substring_char(0, 4), "exit") {
        return None;
    }
    let i = find_char(line, ' ');
    if i == n {
        return Some(0);
    }
    let rest = line.substring_char(i + 1, n);
    let j = find_char(rest, ' ');
    match parse_i32_text(rest.substring_char(0, j)) {
        Some(v) => Some(v),
        None => Some(0),
    }
}

/// `s` without its `"` characters.
pub open spec fn without_quotes(s: Seq<char>) -> Seq<char>
    decreases s.len(),
{
    if s.len() == 0 {
        Seq::empty()
    } else if s.last() == '"' {
        without_quotes(s.drop_last())
    } else {
        without_quotes(s.drop_last()).push(s.last())
    }
}

/// The command line handed over with `-c`: `None` unless the second process
/// argument is `-c`; else the third argument (empty when missing) with its
/// `"` characters removed and its blanks trimmed at both ends.
pub open spec fn command_line_of(args: Seq<Seq<char>>) -> Option<Seq<char>> {
    if args.len() > 1 && args[1] == "-c"@ {
        let raw = if args.len() > 2 { args[2] } else { Seq::empty() };
        Some(trim_end(trim_start(without_quotes(raw))))
    } else {
        None
    }
}

/// Reads the `-c` command line from the process arguments; see
/// `command_line_of`.
pub fn non_interactive_input(args: &Vec<String>) -> (r: Option<String>)
    ensures
        opt_text(r) == command_line_of(views(args@)),
{
    if args.len() <= 1 || !same_text(args[1].as_str(), "-c") {
        return None;
    }
    let mut s = String::new();
    if args.len() > 2 {
        let raw = args[2].as_str();
        let n = raw.unicode_len();
        let mut i: usize = 0;
        assert(raw@.take(0) =~= Seq::<char>::empty());
        while i < n
            invariant
                n == raw@.len(),
                i <= n,
                s@ == without_quotes(raw@.take(i as int)),
            decreases n - i,
        {
            let c = raw.get_char(i);
            assert(raw@.take(i + 1).drop_last() =~= raw@.take(i as int));
            if c != '"' {
                push_char(&mut s, c);
            }
            i = i + 1;
        }
        assert(raw@.take(n as int) =~= raw@);
    } else {
        assert(without_quotes(Seq::<char>::empty()) == Seq::<char>::empty());
    }
    Some(trim(s.as_str()))
}

/// `v` without the `"` around it, if it has them.
pub open spec fn unquoted(v: Seq<char>) -> Seq<char> {
    if v.len() >= 2 && v[0] == '"' && v.last() == '"' {
        v.subrange(1, v.len() - 1)
    } else {
        v
    }
}

/// A line of the configuration file, `name=value`: the name is what stands
/// before the first `=`, the value what follows it, without surrounding
/// `"`. A line without `=` holds no option.
pub open spec fn option_of_line(l: Seq<char>) -> Option<(Seq<char>, Seq<char>)> {
    if l.contains('=') {
        Some((l.take(find(l, '=')), unquoted(l.skip(find(l, '=') + 1))))
    } else {
        None
    }
}

/// Reads one line of the configuration file; see `option_of_line`.
pub fn parse_option_line(line: &str) -> (r: Option<(String, String)>)
    ensures
        match r {
            Some((n, v)) => option_of_line(line@) == Some((n@, v@)),
            None => option_of_line(line@) is None,
        },
{
    let n = line.unicode_len();
    let i = find_char(line, '=');
    if i == n {
        return None;
    }
    let name = string_of(line.substring_char(0, i));
    let raw = line.substring_char(i + 1, n);
    let m = raw.unicode_len();
    let value = if m >= 2 && raw.get_char(0) == '"' && raw.get_char(m - 1) == '"' {
        string_of(raw.substring_char(1, m - 1))
    } else {
        string_of(raw)
    };
    Some((name, value))
}

/// `true` and `false`, as `bool::from_str` reads them.
pub open spec fn parse_bool(v: Seq<char>) -> Option<bool> {
    if v == "true"@ {
        Some(true)
    } else if v == "false"@ {
        Some(false)
    } else {
        None
    }
}

/// A `usize` as `usize::from_str` reads it: an optional `+`, then at least
/// one decimal digit, with a value in range.
pub open spec fn parse_usize(v: Seq<char>) -> Option<usize> {
    let d = if v.len() > 0 && v[0] == '+' { v.skip(1) } else { v };
    if d.len() > 0 && all_digits(d) && digits_value(d) <= usize::MAX {
        Some(digits_value(d) as usize)
    } else {
        None
    }
}

fn parse_bool_text(v: &str) -> (r: Option<bool>)
    ensures
        r == parse_bool(v@),
{
    if same_text(v, "true") {
        Some(true)
    } else if same_text(v, "false") {
        Some(false)
    } else {
        None
    }
}

/// Reads a `usize`; see `parse_usize`.
pub fn parse_usize_text(v: &str) -> (r: Option<usize>)
    ensures
        r == parse_usize(v@),
{
    let n = v.unicode_len();
    let start: usize = if n > 0 && v.get_char(0) == '+' { 1 } else { 0 };
    assert(v@.skip(0) =~= v@);
    match parse_digits(v, start, usize::MAX as u64) {
        Some(k) => Some(k as usize),
        None => None,
    }
}

pub open spec fn invalid_option_text(n: Seq<char>) -> Seq<char> {
    "[WARNING]: '"@ + n + "' is an invalid option, ignoring."@
}

pub open spec fn invalid_value_text(n: Seq<char>, v: Seq<char>) -> Seq<char> {
    "[WARNING]: '"@ + v + "' is not a valid value for '"@ + n + "', ignoring."@
}

fn invalid_value(name: &str, value: &str) -> (r: Option<String>)
    ensures
        r matches Some(t) && t@ == invalid_value_text(name@, value@),
{
    let mut t = string_of("[WARNING]: '");
    push_str(&mut t, value);
    push_str(&mut t, "' is not a valid value for '");
    push_str(&mut t, name);
    push_str(&mut t, "', ignoring.");
    Some(t)
}

/// Applies one option of the configuration file to the state. The options
/// `bell style`, `edit mode`, `history file` and `prompt` take any text;
/// `history auto add lines` and `history spaces ignored` take `true` or
/// `false`; `history size` takes a `usize`. An unknown name, or a value that
/// does not read, changes nothing and gives the warning to print.
pub fn apply_option(shell_state: &mut ShellState, name: &str, value: &str) -> (r: Option<String>)
    ensures
        ({
            let n = name@;
            let v = value@;
            let s0 = *old(shell_state);
            let s1 = *final(shell_state);
            if n == "bell style"@ {
                r is None && s1.bell_style@ == v && s1 == (ShellState { bell_style: s1.bell_style, ..s0 })
            } else if n == "edit mode"@ {
                r is None && s1.edit_mode@ == v && s1 == (ShellState { edit_mode: s1.edit_mode, ..s0 })
            } else if n == "history file"@ {
                r is None && s1.history_file@ == v && s1 == (ShellState { history_file: s1.history_file, ..s0 })
            } else if n == "prompt"@ {
                r is None && s1.prompt@ == v && s1 == (ShellState { prompt: s1.prompt, ..s0 })
            } else if n == "history auto add lines"@ {
                match parse_bool(v) {
                    Some(b) => r is None && s1 == (ShellState { history_auto_add_lines: b, ..s0 }),
                    None => (r matches Some(t) && t@ == invalid_value_text(n, v)) && s1 == s0,
                }
            } else if n == "history spaces ignored"@ {
                match parse_bool(v) {
                    Some(b) => r is None && s1 == (ShellState { history_spaces_ignored: b, ..s0 }),
                    None => (r matches Some(t) && t@ == invalid_value_text(n, v)) && s1 == s0,
                }
            } else if n == "history size"@ {
                match parse_usize(v) {
                    Some(k) => r is None && s1 == (ShellState { history_size: k, ..s0 }),
                    None => (r matches Some(t) && t@ == invalid_value_text(n, v)) && s1 == s0,
                }
            } else {
                (r matches Some(t) && t@ == invalid_option_text(n)) && s1 == s0
            }
        }),
{
    if same_text(name, "bell style") {
        shell_state.bell_style = string_of(value);
        None
    } else if same_text(name, "edit mode") {
        shell_state.edit_mode = string_of(value);
        None
    } else if same_text(name, "history file") {
        shell_state.history_file = string_of(value);
        None
    } else if same_text(name, "prompt") {
        shell_state.prompt = string_of(value);
        None
    } else if same_text(name, "history auto add lines") {
        match parse_bool_text(value) {
            Some(b) => {
                shell_state.history_auto_add_lines = b;
                None
            },
            None => invalid_value(name, value),
        }
    } else if same_text(name, "history spaces ignored") {
        match parse_bool_text(value) {
            Some(b) => {
                shell_state.history_spaces_ignored = b;
                None
            },
            None => invalid_value(name, value),
        }
    } else if same_text(name, "history size") {
        match parse_usize_text(value) {
            Some(k) => {
                shell_state.history_size = k;
                None
            },
            None => invalid_value(name, value),
        }
    } else {
        let mut t = string_of("[WARNING]: '");
        push_str(&mut t, name);
        push_str(&mut t, "' is an invalid option, ignoring.");
        Some(t)
    }
}

} // verus!
