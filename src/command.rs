//! The command descriptor built from a raw line, and the splitter that turns
//! a descriptor holding pipe or redirection markers into pipeline stages.
use vstd::prelude::*;
use crate::lexer::{lex_tokenized_input, lex_words, views};

verus! {

/// Where the output of a pipeline's last stage goes.
#[derive(Debug, Clone, Copy, PartialEq, Eq, Structural)]
pub enum Redirection {
    /// Into a file, which is truncated first (`>`).
    Overwrite,
    /// At the end of a file, which is created if absent (`>>`).
    Append,
    /// To standard output.
    NoOp,
}

/// One command: its name, its arguments in order and the redirection of the
/// line it came from. Before splitting, `args` may hold the markers `|`,
/// `>` and `>>` as ordinary words.
#[derive(Debug, Clone)]
pub struct ShellCommand {
    pub name: String,
    pub args: Vec<String>,
    pub redirection: Redirection,
}

/// The mathematical value of a `ShellCommand`.
pub struct CommandView {
    pub name: Seq<char>,
    pub args: Seq<Seq<char>>,
    pub redirection: Redirection,
}

impl View for ShellCommand {
    type V = CommandView;

    open spec fn view(&self) -> CommandView {
        CommandView { name: self.name@, args: views(self.args@), redirection: self.redirection }
    }
}

/// The views of a sequence of commands.
pub open spec fn command_views(v: Seq<ShellCommand>) -> Seq<CommandView> {
    v.map_values(|c: ShellCommand| c@)
}

/// The line holds `>>` somewhere.
pub open spec fn has_append_marker(s: Seq<char>) -> bool {
    exists|i: int| 0 <= i && i + 1 < s.len() && #[trigger] s[i] == '>' && s[i + 1] == '>'
}

/// The line holds `>` somewhere.
pub open spec fn has_overwrite_marker(s: Seq<char>) -> bool {
    exists|i: int| 0 <= i < s.len() && s[i] == '>'
}

/// The redirection of a raw line: `>>` is looked for before `>`, since each
/// `>>` also holds a `>`.
pub open spec fn redirection_of(s: Seq<char>) -> Redirection {
    if has_append_marker(s) {
        Redirection::Append
    } else if has_overwrite_marker(s) {
        Redirection::Overwrite
    } else {
        Redirection::NoOp
    }
}

/// The descriptor built from a line whose words are not empty.
pub open spec fn command_of(s: Seq<char>) -> CommandView {
    let w = lex_words(s);
    CommandView { name: w[0], args: w.skip(1), redirection: redirection_of(s) }
}

/// Whether a word is one of the markers `|`, `>>`, `>`.
pub open spec fn is_separator(w: Seq<char>) -> bool {
    w == seq!['|'] || w == seq!['>', '>'] || w == seq!['>']
}

/// Some argument is a marker.
pub open spec fn has_separator(args: Seq<Seq<char>>) -> bool {
    exists|i: int| 0 <= i < args.len() && is_separator(#[trigger] args[i])
}

/// The number of markers among the arguments.
pub open spec fn separator_count(args: Seq<Seq<char>>) -> nat
    decreases args.len(),
{
    if args.len() == 0 {
        0
    } else {
        separator_count(args.drop_last()) + if is_separator(args.last()) { 1nat } else { 0nat }
    }
}

/// The runs of arguments between markers, in order; the markers are dropped.
pub open spec fn partitions(args: Seq<Seq<char>>) -> Seq<Seq<Seq<char>>>
    decreases args.len(),
{
    if args.len() == 0 {
        seq![Seq::empty()]
    } else {
        let p = partitions(args.drop_last());
        let w = args.last();
        if is_separator(w) {
            p.push(Seq::empty())
        } else {
            p.update(p.len() - 1, p.last().push(w))
        }
    }
}

/// The redirection that the markers among the arguments call for: `>>`
/// is looked for before `>`.
pub open spec fn args_redirection(args: Seq<Seq<char>>) -> Redirection {
    if args.contains(seq!['>', '>']) {
        Redirection::Append
    } else if args.contains(seq!['>']) {
        Redirection::Overwrite
    } else {
        Redirection::NoOp
    }
}

/// The stage built from the `k`-th run of arguments. The first run keeps the
/// command's name; each later run names its stage by its first word (empty
/// when the run is). Every stage carries the redirection that the markers
/// among the command's arguments call for.
pub open spec fn stage_view(c: CommandView, k: int, part: Seq<Seq<char>>) -> CommandView {
    let r = args_redirection(c.args);
    if k == 0 {
        CommandView { name: c.name, args: part, redirection: r }
    } else if part.len() == 0 {
        CommandView { name: Seq::empty(), args: Seq::empty(), redirection: r }
    } else {
        CommandView { name: part[0], args: part.skip(1), redirection: r }
    }
}

/// The stages of the pipeline that a command describes.
pub open spec fn pipeline_of(c: CommandView) -> Seq<CommandView> {
    partitions(c.args).map(|k: int, part: Seq<Seq<char>>| stage_view(c, k, part))
}

pub proof fn lemma_partitions_len(args: Seq<Seq<char>>)
    ensures
        partitions(args).len() == 1 + separator_count(args),
    decreases args.len(),
{
    if args.len() > 0 {
        lemma_partitions_len(args.drop_last());
    }
}

/// No run of arguments holds a marker.
proof fn lemma_partitions_clean(args: Seq<Seq<char>>)
    ensures
        forall|k: int, j: int|
            0 <= k < partitions(args).len() && 0 <= j < partitions(args)[k].len()
                ==> !is_separator(#[trigger] partitions(args)[k][j]),
    decreases args.len(),
{
    if args.len() > 0 {
        lemma_partitions_clean(args.drop_last());
        lemma_partitions_len(args.drop_last());
        let p = partitions(args.drop_last());
        let w = args.last();
        if !is_separator(w) {
            let q = p.update(p.len() - 1, p.last().push(w));
            assert forall|k: int, j: int| 0 <= k < q.len() && 0 <= j < q[k].len()
                implies !is_separator(#[trigger] q[k][j]) by {
                if k == p.len() - 1 && j == p.last().len() {
                    assert(q[k][j] == w);
                } else {
                    assert(q[k][j] == p[k][j]);
                }
            }
        }
    }
}

/// A pipeline built from a command has one stage more than the command has
/// markers, no marker is left in any stage, and every stage carries the
/// redirection of the markers.
pub proof fn lemma_pipeline_shape(c: CommandView)
    ensures
        pipeline_of(c).len() == 1 + separator_count(c.args),
        forall|k: int| 0 <= k < pipeline_of(c).len() ==> (#[trigger] pipeline_of(c)[k]).redirection
            == args_redirection(c.args),
        forall|k: int, j: int|
            0 <= k < pipeline_of(c).len() && 0 <= j < pipeline_of(c)[k].args.len()
                ==> !is_separator(#[trigger] pipeline_of(c)[k].args[j]),
        forall|k: int| 1 <= k < pipeline_of(c).len() ==> !is_separator(#[trigger] pipeline_of(c)[k].name),
{
    lemma_partitions_len(c.args);
    lemma_partitions_clean(c.args);
    let p = partitions(c.args);
    assert forall|k: int, j: int|
        0 <= k < pipeline_of(c).len() && 0 <= j < pipeline_of(c)[k].args.len()
            implies !is_separator(#[trigger] pipeline_of(c)[k].args[j]) by {
        if k > 0 {
            assert(pipeline_of(c)[k].args[j] == p[k][j + 1]);
        } else {
            assert(pipeline_of(c)[k].args[j] == p[k][j]);
        }
    }
    assert forall|k: int| 1 <= k < pipeline_of(c).len() implies !is_separator(
        #[trigger] pipeline_of(c)[k].name,
    ) by {
        if p[k].len() > 0 {
            assert(pipeline_of(c)[k].name == p[k][0]);
        } else {
            assert(!is_separator(Seq::<char>::empty())) by {
                assert(Seq::<char>::empty().len() != seq!['|'].len());
                assert(Seq::<char>::empty().len() != seq!['>', '>'].len());
                assert(Seq::<char>::empty().len() != seq!['>'].len());
            }
        }
    }
}

/// A line that holds `>>` redirects by appending, though it also holds `>`;
/// a line that holds `>` but no `>>` redirects by overwriting; any other
/// line does not redirect.
pub proof fn lemma_redirection_detection(line: Seq<char>)
    ensures
        has_append_marker(line) ==> redirection_of(line) == Redirection::Append,
        has_append_marker(line) ==> has_overwrite_marker(line),
        !has_append_marker(line) && has_overwrite_marker(line) ==> redirection_of(line)
            == Redirection::Overwrite,
        !has_overwrite_marker(line) ==> redirection_of(line) == Redirection::NoOp,
{
    if has_append_marker(line) {
        let i = choose|i: int| 0 <= i && i + 1 < line.len() && #[trigger] line[i] == '>' && line[i + 1] == '>';
        assert(line[i] == '>');
    }
}

/// Builds a descriptor from its parts.
pub fn return_shellcommand(name: String, args: Vec<String>, redirection: Redirection) -> (r:
    ShellCommand)
    ensures
        r.name == name,
        r.args == args,
        r.redirection == redirection,
{
    ShellCommand { name, args, redirection }
}

/// Whether `s` holds `>>`, then whether it holds `>`.
fn get_redirection_type(s: &str) -> (r: Redirection)
    ensures
        r == redirection_of(s@),
{
    let n = s.unicode_len();
    let mut seen_gt = false;
    let mut prev_gt = false;
    let mut i: usize = 0;
    while i < n
        invariant
            n == s@.len(),
            i <= n,
            seen_gt == exists|j: int| 0 <= j < i && s@[j] == '>',
            prev_gt == (i > 0 && s@[i - 1] == '>'),
            forall|j: int| 0 <= j && j + 1 < i ==> !(#[trigger] s@[j] == '>' && s@[j + 1] == '>'),
        decreases n - i,
    {
        let c = s.get_char(i);
        if c == '>' {
            if prev_gt {
                assert(s@[i - 1] == '>' && s@[(i - 1) + 1] == '>');
                return Redirection::Append;
            }
            seen_gt = true;
            prev_gt = true;
        } else {
            prev_gt = false;
        }
        i = i + 1;
    }
    if seen_gt {
        Redirection::Overwrite
    } else {
        Redirection::NoOp
    }
}

/// Whether a word is a marker.
pub fn is_separator_word(w: &str) -> (r: bool)
    ensures
        r == is_separator(w@),
{
    let n = w.unicode_len();
    if n == 1 {
        let c = w.get_char(0);
        if c == '|' || c == '>' {
            assert(c == '|' ==> w@ =~= seq!['|']);
            assert(c == '>' ==> w@ =~= seq!['>']);
            true
        } else {
            assert(w@[0] != seq!['|'][0] && w@[0] != seq!['>'][0]);
            false
        }
    } else if n == 2 {
        let c0 = w.get_char(0);
        let c1 = w.get_char(1);
        if c0 == '>' && c1 == '>' {
            assert(w@ =~= seq!['>', '>']);
            true
        } else {
            assert(w@[0] != seq!['>', '>'][0] || w@[1] != seq!['>', '>'][1]);
            false
        }
    } else {
        assert(w@.len() != seq!['|'].len());
        assert(w@.len() != seq!['>', '>'].len());
        false
    }
}

/// Whether some argument is a marker.
pub fn contains_separator(args: &Vec<String>) -> (r: bool)
    ensures
        r == has_separator(views(args@)),
{
    let n = args.len();
    let mut i: usize = 0;
    while i < n
        invariant
            n == args@.len(),
            i <= n,
            forall|j: int| 0 <= j < i ==> !is_separator(#[trigger] views(args@)[j]),
        decreases n - i,
    {
        if is_separator_word(args[i].as_str()) {
            assert(is_separator(views(args@)[i as int]));
            return true;
        }
        i = i + 1;
    }
    false
}

impl ShellCommand {
    /// Builds the descriptor of a raw line: its first word is the name, the
    /// others are the arguments, and the redirection comes from the raw text.
    /// A line without words gives `None`.
    pub fn new(input: &str) -> (r: Option<ShellCommand>)
        ensures
            r is None <==> lex_words(input@).len() == 0,
            r matches Some(c) ==> c@ == command_of(input@),
    {
        let mut words = lex_tokenized_input(input);
        if words.len() == 0 {
            return None;
        }
        let ghost w = views(words@);
        let name = words.remove(0);
        assert(views(words@) =~= w.skip(1));
        let redirection = get_redirection_type(input);
        Some(ShellCommand { name, args: words, redirection })
    }
}

/// The stages of a pipeline, in order.
#[derive(Debug)]
pub struct PipedShellCommand {
    pub commands: Vec<ShellCommand>,
}

impl View for PipedShellCommand {
    type V = Seq<CommandView>;

    open spec fn view(&self) -> Seq<CommandView> {
        command_views(self.commands@)
    }
}

/// Turns the run of arguments `part`, the `k`-th, into a stage.
fn make_stage(input: &ShellCommand, k: usize, part: Vec<String>, redirection: Redirection) -> (r:
    ShellCommand)
    requires
        redirection == args_redirection(input@.args),
    ensures
        r@ == stage_view(input@, k as int, views(part@)),
{
    if k == 0 {
        ShellCommand { name: input.name.clone(), args: part, redirection }
    } else if part.len() == 0 {
        let r = ShellCommand { name: String::new(), args: Vec::new(), redirection };
        assert(r@.args =~= Seq::<Seq<char>>::empty());
        r
    } else {
        let mut rest = part;
        let ghost p = views(rest@);
        let name = rest.remove(0);
        assert(views(rest@) =~= p.skip(1));
        ShellCommand { name, args: rest, redirection }
    }
}

impl PipedShellCommand {
    /// Splits a command at every marker among its arguments; see
    /// `pipeline_of`.
    pub fn from(input: &ShellCommand) -> (r: PipedShellCommand)
        ensures
            r@ == pipeline_of(input@),
    {
        let ghost c = input@;
        let redirection = markers_redirection(&input.args);
        let n = input.args.len();
        let mut stages: Vec<ShellCommand> = Vec::new();
        let mut cur: Vec<String> = Vec::new();
        let mut i: usize = 0;
        assert(c.args.take(0) =~= Seq::<Seq<char>>::empty());
        assert(views(cur@) =~= Seq::<Seq<char>>::empty());
        while i < n
            invariant
                n == input.args@.len(),
                c == input@,
                redirection == args_redirection(c.args),
                i <= n,
                partitions(c.args.take(i as int)).len() == stages@.len() + 1,
                forall|k: int| 0 <= k < stages@.len() ==> (#[trigger] stages@[k])@ == stage_view(
                    c,
                    k,
                    partitions(c.args.take(i as int))[k],
                ),
                views(cur@) == partitions(c.args.take(i as int)).last(),
            decreases n - i,
        {
            let ghost before = c.args.take(i as int);
            assert(c.args.take(i + 1).drop_last() =~= before);
            assert(c.args.take(i + 1).last() == c.args[i as int]);
            if is_separator_word(input.args[i].as_str()) {
                let stage = make_stage(input, stages.len(), cur, redirection);
                stages.push(stage);
                cur = Vec::new();
                assert(views(cur@) =~= Seq::<Seq<char>>::empty());
            } else {
                let w = input.args[i].clone();
                let ghost prev = views(cur@);
                cur.push(w);
                assert(views(cur@) =~= prev.push(c.args[i as int]));
            }
            i = i + 1;
        }
        assert(c.args.take(n as int) =~= c.args);
        let stage = make_stage(input, stages.len(), cur, redirection);
        stages.push(stage);
        let r = PipedShellCommand { commands: stages };
        assert(r@ =~= pipeline_of(c));
        r
    }
}

/// Whether one of the words is `w`.
pub fn contains_word(args: &Vec<String>, w: &str) -> (r: bool)
    ensures
        r == views(args@).contains(w@),
{
    let n = args.len();
    let mut i: usize = 0;
    while i < n
        invariant
            n == args@.len(),
            i <= n,
            forall|j: int| 0 <= j < i ==> views(args@)[j] != w@,
        decreases n - i,
    {
        if crate::text::same_text(args[i].as_str(), w) {
            assert(views(args@)[i as int] == w@);
            return true;
        }
        i = i + 1;
    }
    false
}

/// The redirection of the markers among the arguments; see
/// `args_redirection`.
pub fn markers_redirection(args: &Vec<String>) -> (r: Redirection)
    ensures
        r == args_redirection(views(args@)),
{
    proof {
        reveal_strlit(">>");
        reveal_strlit(">");
        assert(">>"@ =~= seq!['>', '>']);
        assert(">"@ =~= seq!['>']);
    }
    if contains_word(args, ">>") {
        Redirection::Append
    } else if contains_word(args, ">") {
        Redirection::Overwrite
    } else {
        Redirection::NoOp
    }
}

/// The pipeline that a builtin named `cmd` must run instead of itself when
/// its arguments hold a marker, or `None` when they hold none.
pub fn is_piped(args: &Vec<String>, cmd: &str) -> (r: Option<PipedShellCommand>)
    ensures
        r is None <==> !has_separator(views(args@)),
        r matches Some(p) ==> p@ == pipeline_of(
            CommandView { name: cmd@, args: views(args@), redirection: Redirection::NoOp },
        ),
{
    if !contains_separator(args) {
        return None;
    }
    let command = ShellCommand {
        name: crate::text::string_of(cmd),
        args: crate::lexer::copy_words(args),
        redirection: Redirection::NoOp,
    };
    Some(PipedShellCommand::from(&command))
}

} // verus!
