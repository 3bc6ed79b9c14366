//! What `cat` and `ls` decide and compute; reading the files and the
//! directory is left to the caller.
use vstd::prelude::*;
use crate::calc::parse_i32_text;
use crate::lexer::views;
use crate::text::{decimal, push_char, push_decimal, push_str, replace_all, replace_text, same_text};

verus! {

/// `s` cut at every `c`; the pieces keep their order and `c` is dropped.
pub open spec fn split_on(s: Seq<char>, c: char) -> Seq<Seq<char>>
    decreases s.len(),
{
    if s.len() == 0 {
        seq![Seq::empty()]
    } else {
        let p = split_on(s.drop_last(), c);
        if s.last() == c {
            p.push(Seq::empty())
        } else {
            p.update(p.len() - 1, p.last().push(s.last()))
        }
    }
}

/// Cuts `s` at every `c`; see `split_on`.
pub fn split_text(s: &str, c: char) -> (r: Vec<String>)
    ensures
        views(r@) == split_on(s@, c),
{
    let n = s.unicode_len();
    let mut parts: Vec<String> = Vec::new();
    let mut cur = String::new();
    let mut i: usize = 0;
    assert(s@.take(0) =~= Seq::<char>::empty());
    assert(views(parts@).push(cur@) =~= split_on(s@.take(0), c));
    while i < n
        invariant
            n == s@.len(),
            i <= n,
            views(parts@).push(cur@) == split_on(s@.take(i as int), c),
        decreases n - i,
    {
        let ch = s.get_char(i);
        let ghost before = views(parts@).push(cur@);
        assert(s@.take(i + 1).drop_last() =~= s@.take(i as int));
        if ch == c {
            parts.push(cur);
            cur = String::new();
            assert(views(parts@).push(cur@) =~= before.push(Seq::empty()));
        } else {
            push_char(&mut cur, ch);
            assert(views(parts@).push(cur@) =~= before.update(before.len() - 1, before.last().push(ch)));
        }
        i = i + 1;
    }
    assert(s@.take(n as int) =~= s@);
    let ghost before = views(parts@);
    parts.push(cur);
    assert(views(parts@) =~= before.push(cur@));
    parts
}

/// What `cat` is asked to do.
pub enum CatRequest {
    /// Show one line of a file, counted from 0.
    Line(usize, String),
    /// Show a file with each line numbered from 0.
    Numbered(String),
    /// Show a file.
    Whole(String),
    /// The arguments name no file.
    Missing,
}

pub enum CatSpec {
    Line(nat, Seq<char>),
    Numbered(Seq<char>),
    Whole(Seq<char>),
    Missing,
}

impl View for CatRequest {
    type V = CatSpec;

    open spec fn view(&self) -> CatSpec {
        match self {
            CatRequest::Line(k, p) => CatSpec::Line(*k as nat, p@),
            CatRequest::Numbered(p) => CatSpec::Numbered(p@),
            CatRequest::Whole(p) => CatSpec::Whole(p@),
            CatRequest::Missing => CatSpec::Missing,
        }
    }
}

/// `cat -l N file` shows line `N` of the file, counted from 1; `cat -n file`
/// numbers the lines; `cat file` shows it.
pub open spec fn cat_request_of(args: Seq<Seq<char>>) -> CatSpec {
    if args.len() == 0 {
        CatSpec::Missing
    } else if args[0] == "-l"@ {
        if args.len() >= 3 {
            match crate::calc::parse_i32(args[1]) {
                Some(k) => if k >= 1 { CatSpec::Line((k - 1) as nat, args[2]) } else { CatSpec::Missing },
                None => CatSpec::Missing,
            }
        } else {
            CatSpec::Missing
        }
    } else if args[0] == "-n"@ {
        if args.len() >= 2 { CatSpec::Numbered(args[1]) } else { CatSpec::Missing }
    } else {
        CatSpec::Whole(args[0])
    }
}

/// Reads the arguments of `cat`; see `cat_request_of`.
pub fn cat_request(args: &Vec<String>) -> (r: CatRequest)
    ensures
        r@ == cat_request_of(views(args@)),
{
    if args.len() == 0 {
        CatRequest::Missing
    } else if same_text(args[0].as_str(), "-l") {
        if args.len() >= 3 {
            match parse_i32_text(args[1].as_str()) {
                Some(k) => if k >= 1 {
                    CatRequest::Line((k - 1) as usize, args[2].clone())
                } else {
                    CatRequest::Missing
                },
                None => CatRequest::Missing,
            }
        } else {
            CatRequest::Missing
        }
    } else if same_text(args[0].as_str(), "-n") {
        if args.len() >= 2 {
            CatRequest::Numbered(args[1].clone())
        } else {
            CatRequest::Missing
        }
    } else {
        CatRequest::Whole(args[0].clone())
    }
}

/// Each piece of `ls` (the lines of a text), after its number and a space,
/// and followed by a newline.
pub open spec fn numbered_from(ls: Seq<Seq<char>>) -> Seq<char>
    decreases ls.len(),
{
    if ls.len() == 0 {
        Seq::empty()
    } else {
        numbered_from(ls.drop_last()) + decimal((ls.len() - 1) as nat) + seq![' '] + ls.last()
            + seq!['\n']
    }
}

/// The lines of `text`, numbered from 0; see `numbered_from`.
pub fn number_lines(text: &str) -> (r: String)
    ensures
        r@ == numbered_from(split_on(text@, '\n')),
{
    let lines = split_text(text, '\n');
    let ghost l = views(lines@);
    let mut out = String::new();
    let n = lines.len();
    let mut i: usize = 0;
    assert(l.take(0) =~= Seq::<Seq<char>>::empty());
    while i < n
        invariant
            n == lines@.len(),
            l == views(lines@),
            i <= n,
            out@ == numbered_from(l.take(i as int)),
        decreases n - i,
    {
        push_decimal(&mut out, i as u64);
        push_char(&mut out, ' ');
        push_str(&mut out, lines[i].as_str());
        push_char(&mut out, '\n');
        i = i + 1;
        assert(l.take(i as int).drop_last() =~= l.take(i - 1));
        assert(out@ =~= numbered_from(l.take(i as int)));
    }
    assert(l.take(n as int) =~= l);
    out
}

/// Line `k` of `text`, counted from 0, if it has one.
pub fn nth_line(text: &str, k: usize) -> (r: Option<String>)
    ensures
        ({
            let l = split_on(text@, '\n');
            match r {
                Some(s) => k < l.len() && s@ == l[k as int],
                None => k >= l.len(),
            }
        }),
{
    let mut lines = split_text(text, '\n');
    if k < lines.len() {
        Some(lines.swap_remove(k))
    } else {
        None
    }
}

/// Whether `s` starts with `--`.
pub open spec fn is_long_option(s: Seq<char>) -> bool {
    s.len() >= 2 && s[0] == '-' && s[1] == '-'
}

/// The directory that `ls` lists: `.` without arguments, else the last
/// argument that is not a long option (the first argument if all are).
pub open spec fn ls_path_of(args: Seq<Seq<char>>) -> Seq<char>
    decreases args.len(),
{
    if args.len() == 0 {
        "."@
    } else if !is_long_option(args.last()) {
        args.last()
    } else if args.len() == 1 {
        args[0]
    } else {
        ls_path_of(args.drop_last())
    }
}

/// Picks the directory that `ls` lists; see `ls_path_of`.
pub fn ls_path(args: &Vec<String>) -> (r: String)
    ensures
        r@ == ls_path_of(views(args@)),
{
    let n = args.len();
    if n == 0 {
        return crate::text::string_of(".");
    }
    let mut i: usize = n;
    assert(views(args@).take(n as int) =~= views(args@));
    while i > 1
        invariant
            n == args@.len(),
            1 <= i <= n,
            ls_path_of(views(args@).take(i as int)) == ls_path_of(views(args@)),
        decreases i,
    {
        let a = args[i - 1].as_str();
        let long = a.unicode_len() >= 2 && a.get_char(0) == '-' && a.get_char(1) == '-';
        if !long {
            return args[i - 1].clone();
        }
        assert(views(args@).take(i as int).drop_last() =~= views(args@).take(i - 1));
        i = i - 1;
    }
    assert(views(args@).take(1).last() == views(args@)[0]);
    args[0].clone()
}

/// The path segments that `ls` shows for a directory entry: every `./` is
/// taken out, then the path is cut at `/`.
pub open spec fn entry_segments_of(entry: Seq<char>) -> Seq<Seq<char>> {
    split_on(replace_all(entry, "./"@, ""@), '/')
}

/// The segments of a directory entry; see `entry_segments_of`.
pub fn entry_segments(entry: &str) -> (r: Vec<String>)
    ensures
        views(r@) == entry_segments_of(entry@),
{
    let plain = replace_text(entry, "./", "");
    split_text(plain.as_str(), '/')
}

/// The first character of `s`, if it has one.
pub open spec fn initial(s: Seq<char>) -> Seq<char> {
    if s.len() > 0 { seq![s[0]] } else { Seq::empty() }
}

/// Each segment after a `/`, cut to its first character.
pub open spec fn initials(m: Seq<Seq<char>>) -> Seq<char>
    decreases m.len(),
{
    if m.len() == 0 {
        Seq::empty()
    } else {
        initials(m.drop_last()) + seq!['/'] + initial(m.last())
    }
}

/// A path with each directory before the last cut to its first character:
/// `/home/zeno/src` becomes `/h/z/src`. What stands before the first `/` is
/// dropped.
pub open spec fn short_path(p: Seq<char>) -> Seq<char> {
    let segs = split_on(p, '/');
    if segs.len() <= 1 {
        Seq::empty()
    } else {
        initials(segs.subrange(1, segs.len() - 1)) + seq!['/'] + segs.last()
    }
}

/// The directory that `print` shortens: its second argument, or the
/// working directory when that is missing or `.`.
pub open spec fn print_dir(args: Seq<Seq<char>>, cwd: Seq<char>) -> Seq<char> {
    if args.len() < 2 || args[1] == "."@ { cwd } else { args[1] }
}

/// The shortened form of a directory; see `short_path` and `print_dir`.
pub fn print(args: &Vec<String>, cwd: &str) -> (r: String)
    ensures
        r@ == short_path(print_dir(views(args@), cwd@)),
{
    let dir = if args.len() < 2 || same_text(args[1].as_str(), ".") {
        cwd
    } else {
        args[1].as_str()
    };
    let segs = split_text(dir, '/');
    let ghost v = views(segs@);
    let n = segs.len();
    let mut out = String::new();
    if n <= 1 {
        return out;
    }
    let mut k: usize = 1;
    assert(v.subrange(1, 1) =~= Seq::<Seq<char>>::empty());
    while k < n - 1
        invariant
            n == segs@.len(),
            v == views(segs@),
            n >= 2,
            1 <= k <= n - 1,
            out@ == initials(v.subrange(1, k as int)),
        decreases n - 1 - k,
    {
        push_char(&mut out, '/');
        let s = segs[k].as_str();
        if s.unicode_len() > 0 {
            push_char(&mut out, s.get_char(0));
        }
        k = k + 1;
        assert(v.subrange(1, k as int).drop_last() =~= v.subrange(1, k - 1));
        assert(out@ =~= initials(v.subrange(1, k as int)));
    }
    push_char(&mut out, '/');
    push_str(&mut out, segs[n - 1].as_str());
    assert(out@ =~= short_path(dir@));
    out
}

} // verus!
