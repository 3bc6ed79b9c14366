//! The pipeline executor, as a state machine. It runs the stages in order,
//! carrying each stage's output into the next, and ends by printing the last
//! output or writing it to the file that the last stage names. Stages that
//! `echo` or `calc` run are computed here; for the others the machine asks
//! its caller to run a builtin or spawn a program and hand back the output.
use vstd::prelude::*;
use crate::calc::{calc_text, concat_all};
use crate::command::{CommandView, PipedShellCommand, Redirection, ShellCommand, command_views};
use crate::dispatch::{Builtin, builtin_named, builtin_of};
use crate::echo::{echo, echo_text};
use crate::lexer::{copy_words, views};
use crate::text::{push_char, push_str};

verus! {

/// The builtins that a pipeline stage runs in-process; the other names are
/// spawned.
pub open spec fn pipeline_builtin(n: Seq<char>) -> Option<Builtin> {
    match builtin_named(n) {
        Some(Builtin::Calc) => Some(Builtin::Calc),
        Some(Builtin::Cat) => Some(Builtin::Cat),
        Some(Builtin::Echo) => Some(Builtin::Echo),
        Some(Builtin::Ls) => Some(Builtin::Ls),
        _ => None,
    }
}

/// Stages whose output the machine computes itself.
pub open spec fn is_pure_stage(c: CommandView) -> bool {
    pipeline_builtin(c.name) == Some(Builtin::Echo) || pipeline_builtin(c.name) == Some(
        Builtin::Calc,
    )
}

pub open spec fn pure_output(c: CommandView) -> Seq<char> {
    if pipeline_builtin(c.name) == Some(Builtin::Echo) {
        echo_text(c.args)
    } else {
        calc_text(concat_all(c.args))
    }
}

/// The redirection that the run honours: the last stage's.
pub open spec fn terminal_redirection(s: Seq<CommandView>) -> Redirection {
    s.last().redirection
}

/// How many stages run as commands. With a redirection the last stage
/// names the destination file and does not run.
pub open spec fn run_len(s: Seq<CommandView>) -> int {
    if terminal_redirection(s) == Redirection::NoOp {
        s.len() as int
    } else {
        s.len() - 1
    }
}

/// From stage `i` with carry `carry`, runs every stage that the machine
/// computes itself, up to the first that it cannot, or the end.
pub open spec fn settle(s: Seq<CommandView>, i: int, carry: Seq<char>) -> (int, Seq<char>)
    decreases run_len(s) - i,
{
    if 0 <= i < run_len(s) && is_pure_stage(s[i]) {
        settle(s, i + 1, pure_output(s[i]))
    } else {
        (i, carry)
    }
}

/// The index of the last `c` in `p`, or -1.
pub open spec fn rfind(p: Seq<char>, c: char) -> int
    decreases p.len(),
{
    if p.len() == 0 {
        -1
    } else if p.last() == c {
        p.len() - 1
    } else {
        rfind(p.drop_last(), c)
    }
}

/// The directory part of a path, up to and with its last `/`; `None` for a
/// path without `/`.
pub open spec fn parent_dir(p: Seq<char>) -> Option<Seq<char>> {
    if rfind(p, '/') >= 0 {
        Some(p.take(rfind(p, '/') + 1))
    } else {
        None
    }
}

/// The state of a run: the stages, the next one to run, the carried output,
/// and whether a stage failed to spawn.
pub struct RunView {
    pub stages: Seq<CommandView>,
    pub stage: int,
    pub carry: Seq<char>,
    pub failed: bool,
}

/// What the machine asks of its caller next.
pub enum PipelineAction {
    /// Run this builtin on these arguments and hand back its text.
    RunBuiltin { builtin: Builtin, args: Vec<String> },
    /// Spawn this program, feed it `input` on its standard input (or let it
    /// read the terminal when there is none), and hand back what it writes.
    Spawn { name: String, args: Vec<String>, input: Option<String> },
    /// Create `dir` with its parents when given, then write `contents` into
    /// the file at `path`: at its end when `append`, else in place of what it
    /// held. The run is over.
    WriteFile { dir: Option<String>, path: String, contents: String, append: bool },
    /// Print this text and a newline. The run is over.
    Print { text: String },
    /// Print this error line. The run is over.
    Report { text: String },
}

pub enum ActionSpec {
    RunBuiltin(Builtin, Seq<Seq<char>>),
    Spawn(Seq<char>, Seq<Seq<char>>, Option<Seq<char>>),
    WriteFile(Option<Seq<char>>, Seq<char>, Seq<char>, bool),
    Print(Seq<char>),
    Report(Seq<char>),
}

pub open spec fn opt_view(o: Option<String>) -> Option<Seq<char>> {
    match o {
        Some(s) => Some(s@),
        None => None,
    }
}

impl View for PipelineAction {
    type V = ActionSpec;

    open spec fn view(&self) -> ActionSpec {
        match self {
            PipelineAction::RunBuiltin { builtin, args } => ActionSpec::RunBuiltin(*builtin, views(args@)),
            PipelineAction::Spawn { name, args, input } => ActionSpec::Spawn(
                name@,
                views(args@),
                opt_view(*input),
            ),
            PipelineAction::WriteFile { dir, path, contents, append } => ActionSpec::WriteFile(
                opt_view(*dir),
                path@,
                contents@,
                *append,
            ),
            PipelineAction::Print { text } => ActionSpec::Print(text@),
            PipelineAction::Report { text } => ActionSpec::Report(text@),
        }
    }
}

/// What the caller hands back after a `RunBuiltin` or `Spawn`.
pub enum StageEvent {
    /// The stage ran; this is what it wrote.
    Output(String),
    /// The program could not be spawned.
    Failed,
}

/// The action that a settled state calls for.
pub open spec fn action_at(r: RunView) -> ActionSpec {
    let s = r.stages;
    if r.failed {
        ActionSpec::Report(s[r.stage].name + " failed"@)
    } else if r.stage < run_len(s) {
        let c = s[r.stage];
        match pipeline_builtin(c.name) {
            Some(b) => ActionSpec::RunBuiltin(b, c.args),
            None => ActionSpec::Spawn(
                c.name,
                c.args,
                if r.stage == 0 { None } else { Some(r.carry) },
            ),
        }
    } else {
        let path = s.last().name;
        match terminal_redirection(s) {
            Redirection::NoOp => ActionSpec::Print(r.carry),
            Redirection::Overwrite => ActionSpec::WriteFile(parent_dir(path), path, r.carry, false),
            Redirection::Append => ActionSpec::WriteFile(
                parent_dir(path),
                path,
                r.carry.push('\n'),
                true,
            ),
        }
    }
}

/// A run of a pipeline.
pub struct PipelineRun {
    commands: Vec<ShellCommand>,
    stage: usize,
    carry: String,
    failed: bool,
}

impl View for PipelineRun {
    type V = RunView;

    closed spec fn view(&self) -> RunView {
        RunView {
            stages: command_views(self.commands@),
            stage: self.stage as int,
            carry: self.carry@,
            failed: self.failed,
        }
    }
}

impl PipelineRun {
    /// At least one stage; the next stage is within the stages that run,
    /// and is one of them when a stage failed.
    pub open spec fn wf(&self) -> bool {
        let v = self@;
        &&& v.stages.len() >= 1
        &&& 0 <= v.stage <= run_len(v.stages)
        &&& v.failed ==> v.stage < run_len(v.stages)
    }

    /// A run that has not started.
    pub fn new(pipe: PipedShellCommand) -> (r: PipelineRun)
        requires
            pipe@.len() >= 1,
        ensures
            r.wf(),
            r@ == (RunView { stages: pipe@, stage: 0, carry: Seq::empty(), failed: false }),
    {
        PipelineRun { commands: pipe.commands, stage: 0, carry: String::new(), failed: false }
    }

    fn limit(&self) -> (r: usize)
        requires
            self.commands@.len() >= 1,
        ensures
            r as int == run_len(self@.stages),
    {
        let n = self.commands.len();
        match self.commands[n - 1].redirection {
            Redirection::NoOp => n,
            _ => n - 1,
        }
    }

    /// Runs the stages that the machine computes itself, then says what the
    /// caller must do next; see `settle` and `action_at`.
    pub fn next_action(&mut self) -> (r: PipelineAction)
        requires
            old(self).wf(),
        ensures
            final(self).wf(),
            final(self)@.stages == old(self)@.stages,
            final(self)@.failed == old(self)@.failed,
            old(self)@.failed ==> final(self)@ == old(self)@,
            !old(self)@.failed ==> (final(self)@.stage, final(self)@.carry) == settle(
                old(self)@.stages,
                old(self)@.stage,
                old(self)@.carry,
            ),
            r@ == action_at(final(self)@),
    {
        let ghost s = self@.stages;
        let limit = self.limit();
        if self.failed {
            let mut text = self.commands[self.stage].name.clone();
            push_str(&mut text, " failed");
            return PipelineAction::Report { text };
        }
        loop
            invariant
                self.wf(),
                !self.failed,
                self@.stages == s,
                limit as int == run_len(s),
                settle(s, self@.stage, self@.carry) == settle(
                    s,
                    old(self)@.stage,
                    old(self)@.carry,
                ),
            ensures
                self.wf(),
                !self.failed,
                self@.stages == s,
                settle(s, self@.stage, self@.carry) == (self@.stage, self@.carry),
                self@.stage < run_len(s) ==> !is_pure_stage(s[self@.stage]),
                settle(s, self@.stage, self@.carry) == settle(
                    s,
                    old(self)@.stage,
                    old(self)@.carry,
                ),
            decreases limit - self.stage,
        {
            if self.stage >= limit {
                break;
            }
            let c = &self.commands[self.stage];
            let pure = match builtin_of(c.name.as_str()) {
                Some(Builtin::Echo) => Some(echo(&c.args)),
                Some(Builtin::Calc) => Some(crate::calc::calc(&c.args)),
                _ => None,
            };
            match pure {
                Some(out) => {
                    self.carry = out;
                    self.stage = self.stage + 1;
                },
                None => {
                    break;
                },
            }
        }
        let i = self.stage;
        if i < limit {
            let c = &self.commands[i];
            match builtin_of(c.name.as_str()) {
                Some(Builtin::Cat) => {
                    return PipelineAction::RunBuiltin { builtin: Builtin::Cat, args: copy_words(&c.args) };
                },
                Some(Builtin::Ls) => {
                    return PipelineAction::RunBuiltin { builtin: Builtin::Ls, args: copy_words(&c.args) };
                },
                _ => {},
            }
            let input = if i == 0 {
                None
            } else {
                Some(self.carry.clone())
            };
            return PipelineAction::Spawn { name: c.name.clone(), args: copy_words(&c.args), input };
        }
        let n = self.commands.len();
        let last = &self.commands[n - 1];
        match last.redirection {
            Redirection::NoOp => PipelineAction::Print { text: self.carry.clone() },
            Redirection::Overwrite => PipelineAction::WriteFile {
                dir: parent_dir_of(last.name.as_str()),
                path: last.name.clone(),
                contents: self.carry.clone(),
                append: false,
            },
            Redirection::Append => {
                let mut contents = self.carry.clone();
                push_char(&mut contents, '\n');
                PipelineAction::WriteFile {
                    dir: parent_dir_of(last.name.as_str()),
                    path: last.name.clone(),
                    contents,
                    append: true,
                }
            },
        }
    }

    /// Takes in the outcome of the stage that `next_action` asked for: its
    /// output becomes the carry and the run moves to the next stage, or the
    /// run fails at this stage.
    pub fn advance(&mut self, event: StageEvent)
        requires
            old(self).wf(),
            !old(self)@.failed,
            old(self)@.stage < run_len(old(self)@.stages),
        ensures
            final(self).wf(),
            final(self)@.stages == old(self)@.stages,
            event matches StageEvent::Output(t) ==> final(self)@ == (RunView {
                stage: old(self)@.stage + 1,
                carry: t@,
                ..old(self)@
            }),
            event matches StageEvent::Failed ==> final(self)@ == (RunView {
                failed: true,
                ..old(self)@
            }),
    {
        match event {
            StageEvent::Output(t) => {
                let n = self.commands.len();
                assert(self.stage < n);
                self.carry = t;
                self.stage = self.stage + 1;
            },
            StageEvent::Failed => {
                self.failed = true;
            },
        }
    }
}

/// The directory part of a path; see `parent_dir`.
pub fn parent_dir_of(path: &str) -> (r: Option<String>)
    ensures
        opt_view(r) == parent_dir(path@),
{
    let n = path.unicode_len();
    let mut i: usize = n;
    assert(path@.take(n as int) =~= path@);
    while i > 0
        invariant
            n == path@.len(),
            i <= n,
            rfind(path@.take(i as int), '/') == rfind(path@, '/'),
        decreases i,
    {
        assert(path@.take(i as int).drop_last() =~= path@.take(i - 1));
        if path.get_char(i - 1) == '/' {
            let mut dir = String::new();
            push_str(&mut dir, path.substring_char(0, i));
            return Some(dir);
        }
        i = i - 1;
    }
    None
}

proof fn lemma_settle_pure(s: Seq<CommandView>, i: int, carry: Seq<char>)
    requires
        s.len() >= 2,
        terminal_redirection(s) != Redirection::NoOp,
        forall|k: int| 0 <= k < s.len() - 1 ==> is_pure_stage(#[trigger] s[k]),
        0 <= i < s.len() - 1,
    ensures
        settle(s, i, carry) == (s.len() - 1, pure_output(s[s.len() - 2])),
    decreases s.len() - i,
{
    assert(run_len(s) == s.len() - 1);
    assert(is_pure_stage(s[i]));
    assert(settle(s, i, carry) == settle(s, i + 1, pure_output(s[i])));
    if i + 1 < s.len() - 1 {
        lemma_settle_pure(s, i + 1, pure_output(s[i]));
    } else {
        assert(settle(s, i + 1, pure_output(s[i])) == (i + 1, pure_output(s[i])));
    }
}

/// A redirected pipeline whose stages before the last are all computed
/// in-process (`echo` or `calc`), such as `echo foo > out.txt`: from its
/// start, the run asks for nothing but one write of the last stage's output
/// to the file that the last stage names, in place of what the file held
/// (with `>`) or at its end with a newline (with `>>`), and it prints
/// nothing. For `echo` that output is `echo_text` of its arguments.
pub proof fn lemma_redirected_pure_pipeline(s: Seq<CommandView>)
    requires
        s.len() >= 2,
        terminal_redirection(s) != Redirection::NoOp,
        forall|k: int| 0 <= k < s.len() - 1 ==> is_pure_stage(#[trigger] s[k]),
    ensures
        ({
            let out = pure_output(s[s.len() - 2]);
            let start = RunView { stages: s, stage: 0, carry: Seq::empty(), failed: false };
            let (i, carry) = settle(s, 0, Seq::empty());
            let settled = RunView { stage: i, carry, ..start };
            &&& i == s.len() - 1
            &&& carry == out
            &&& terminal_redirection(s) == Redirection::Overwrite ==> action_at(settled)
                == ActionSpec::WriteFile(parent_dir(s.last().name), s.last().name, out, false)
            &&& terminal_redirection(s) == Redirection::Append ==> action_at(settled)
                == ActionSpec::WriteFile(parent_dir(s.last().name), s.last().name, out.push('\n'), true)
        }),
        s[s.len() - 2].name == "echo"@ ==> pure_output(s[s.len() - 2]) == echo_text(
            s[s.len() - 2].args,
        ),
{
    lemma_settle_pure(s, 0, Seq::empty());
    reveal_strlit("echo");
    reveal_strlit("calc");
    reveal_strlit("cat");
    reveal_strlit("cd");
    assert("echo"@[0] != "calc"@[0]);
    assert("echo"@[0] != "cat"@[0]);
    assert("echo"@[0] != "cd"@[0]);
}

} // verus!
