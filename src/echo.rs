//! The `echo` builtin.
use vstd::prelude::*;
use crate::lexer::views;
use crate::text::push_char;

verus! {

/// `s` with each two-character escape `\n` replaced by a newline, scanning
/// from the left.
pub open spec fn unescape(s: Seq<char>) -> Seq<char>
    decreases s.len(),
{
    if s.len() == 0 {
        Seq::empty()
    } else if s.len() >= 2 && s[0] == '\\' && s[1] == 'n' {
        seq!['\n'] + unescape(s.skip(2))
    } else {
        seq![s[0]] + unescape(s.skip(1))
    }
}

/// What `echo` returns: each argument, unescaped, followed by a space.
pub open spec fn echo_text(args: Seq<Seq<char>>) -> Seq<char>
    decreases args.len(),
{
    if args.len() == 0 {
        Seq::empty()
    } else {
        echo_text(args.drop_last()) + unescape(args.last()) + seq![' ']
    }
}

/// Appends `unescape(w)` to `out`.
fn push_unescaped(out: &mut String, w: &str)
    ensures
        final(out)@ == old(out)@ + unescape(w@),
{
    let n = w.unicode_len();
    let mut i: usize = 0;
    assert(w@.skip(0) =~= w@);
    while i < n
        invariant
            n == w@.len(),
            i <= n,
            out@ + unescape(w@.skip(i as int)) == old(out)@ + unescape(w@),
        decreases n - i,
    {
        let ghost rest = w@.skip(i as int);
        let c = w.get_char(i);
        if c == '\\' && i + 1 < n && w.get_char(i + 1) == 'n' {
            assert(rest.skip(2) =~= w@.skip(i + 2));
            assert(out@.push('\n') + unescape(rest.skip(2)) =~= out@ + unescape(rest));
            push_char(out, '\n');
            i = i + 2;
        } else {
            assert(rest.skip(1) =~= w@.skip(i + 1));
            assert(out@.push(c) + unescape(rest.skip(1)) =~= out@ + unescape(rest));
            push_char(out, c);
            i = i + 1;
        }
    }
    assert(w@.skip(n as int) =~= Seq::<char>::empty());
    assert(out@ + unescape(w@.skip(n as int)) =~= out@);
}

/// Returns each argument, with `\n` turned into a newline, followed by a
/// space.
pub fn echo(args: &Vec<String>) -> (r: String)
    ensures
        r@ == echo_text(views(args@)),
{
    let mut out = String::new();
    let n = args.len();
    let mut i: usize = 0;
    while i < n
        invariant
            n == args@.len(),
            i <= n,
            out@ == echo_text(views(args@).take(i as int)),
        decreases n - i,
    {
        let ghost before = out@;
        push_unescaped(&mut out, args[i].as_str());
        push_char(&mut out, ' ');
        i = i + 1;
        assert(views(args@).take(i as int).drop_last() =~= views(args@).take(i - 1));
        assert(out@ =~= echo_text(views(args@).take(i as int)));
    }
    assert(views(args@).take(n as int) =~= views(args@));
    out
}

} // verus!
