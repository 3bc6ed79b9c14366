//! The tokenizer, which splits a line into one-character tokens, and the
//! lexer, a two-state automaton (plain or quoted) that groups them into words.
use vstd::prelude::*;
use crate::text::push_char;

verus! {

/// The views of a sequence of strings.
pub open spec fn views(v: Seq<String>) -> Seq<Seq<char>> {
    v.map_values(|s: String| s@)
}

/// The quote characters that open and close a quoted span.
pub open spec fn is_quote(c: char) -> bool {
    c == '"' || c == '\''
}

/// The lexer's state after some prefix of the input: the mode, the two
/// accumulators and the words emitted so far.
pub struct LexState {
    pub quoted: bool,
    pub plain: Seq<char>,
    pub quoted_buf: Seq<char>,
    pub words: Seq<Seq<char>>,
}

/// Emits `buf` as a word unless it is empty.
pub open spec fn flush(words: Seq<Seq<char>>, buf: Seq<char>) -> Seq<Seq<char>> {
    if buf.len() == 0 {
        words
    } else {
        words.push(buf)
    }
}

pub open spec fn lex_start() -> LexState {
    LexState { quoted: false, plain: Seq::empty(), quoted_buf: Seq::empty(), words: Seq::empty() }
}

/// One transition of the automaton on the character `c`.
pub open spec fn lex_step(st: LexState, c: char) -> LexState {
    if is_quote(c) {
        if st.quoted {
            LexState {
                quoted: false,
                quoted_buf: Seq::empty(),
                words: flush(st.words, st.quoted_buf),
                ..st
            }
        } else {
            LexState { quoted: true, ..st }
        }
    } else if st.quoted {
        LexState { quoted_buf: st.quoted_buf.push(c), ..st }
    } else if c == ' ' {
        LexState { plain: Seq::empty(), words: flush(st.words, st.plain), ..st }
    } else {
        LexState { plain: st.plain.push(c), ..st }
    }
}

/// The state after running the automaton over all of `s`.
pub open spec fn lex_run(s: Seq<char>) -> LexState
    decreases s.len(),
{
    if s.len() == 0 {
        lex_start()
    } else {
        lex_step(lex_run(s.drop_last()), s.last())
    }
}

/// The words of a line. At the end of the input an open quoted span is
/// closed as if its quote had come, then the plain accumulator is emitted.
pub open spec fn lex_words(s: Seq<char>) -> Seq<Seq<char>> {
    let st = lex_run(s);
    let w = if st.quoted { flush(st.words, st.quoted_buf) } else { st.words };
    flush(w, st.plain)
}

/// Every word in `w` has at least one character.
pub open spec fn all_nonempty(w: Seq<Seq<char>>) -> bool {
    forall|i: int| 0 <= i < w.len() ==> #[trigger] w[i].len() > 0
}

/// No word in `w` holds a quote character.
pub open spec fn quote_free(w: Seq<Seq<char>>) -> bool {
    forall|i: int, j: int| 0 <= i < w.len() && 0 <= j < w[i].len() ==> !is_quote(#[trigger] w[i][j])
}

pub open spec fn no_quote(s: Seq<char>) -> bool {
    forall|j: int| 0 <= j < s.len() ==> !is_quote(#[trigger] s[j])
}

proof fn lemma_flush_nonempty(w: Seq<Seq<char>>, buf: Seq<char>)
    requires
        all_nonempty(w),
    ensures
        all_nonempty(flush(w, buf)),
{
    if buf.len() > 0 {
        assert forall|i: int| 0 <= i < w.push(buf).len() implies #[trigger] w.push(buf)[i].len() > 0 by {
            if i < w.len() {
                assert(w.push(buf)[i] == w[i]);
            }
        }
    }
}

proof fn lemma_flush_quote_free(w: Seq<Seq<char>>, buf: Seq<char>)
    requires
        quote_free(w),
        no_quote(buf),
    ensures
        quote_free(flush(w, buf)),
{
    if buf.len() > 0 {
        let v = w.push(buf);
        assert forall|i: int, j: int| 0 <= i < v.len() && 0 <= j < v[i].len() implies !is_quote(
            #[trigger] v[i][j],
        ) by {
            if i < w.len() {
                assert(v[i] == w[i]);
            } else {
                assert(v[i] == buf);
            }
        }
    }
}

proof fn lemma_lex_run_shape(s: Seq<char>)
    ensures
        all_nonempty(lex_run(s).words),
        quote_free(lex_run(s).words),
        no_quote(lex_run(s).plain),
        no_quote(lex_run(s).quoted_buf),
    decreases s.len(),
{
    if s.len() > 0 {
        let st = lex_run(s.drop_last());
        let c = s.last();
        lemma_lex_run_shape(s.drop_last());
        lemma_flush_nonempty(st.words, st.quoted_buf);
        lemma_flush_nonempty(st.words, st.plain);
        lemma_flush_quote_free(st.words, st.quoted_buf);
        lemma_flush_quote_free(st.words, st.plain);
        if !is_quote(c) {
            assert(no_quote(st.plain.push(c))) by {
                assert forall|j: int| 0 <= j < st.plain.push(c).len() implies !is_quote(
                    #[trigger] st.plain.push(c)[j],
                ) by {
                    if j < st.plain.len() {
                        assert(st.plain.push(c)[j] == st.plain[j]);
                    }
                }
            }
            assert(no_quote(st.quoted_buf.push(c))) by {
                assert forall|j: int| 0 <= j < st.quoted_buf.push(c).len() implies !is_quote(
                    #[trigger] st.quoted_buf.push(c)[j],
                ) by {
                    if j < st.quoted_buf.len() {
                        assert(st.quoted_buf.push(c)[j] == st.quoted_buf[j]);
                    }
                }
            }
        }
    }
}

/// No word that the lexer produces is empty (runs of spaces and empty
/// quoted spans give no words), and none holds a quote character (quotes
/// only delimit).
pub proof fn lemma_lex_words_shape(s: Seq<char>)
    ensures
        all_nonempty(lex_words(s)),
        quote_free(lex_words(s)),
{
    let st = lex_run(s);
    lemma_lex_run_shape(s);
    lemma_flush_nonempty(st.words, st.quoted_buf);
    lemma_flush_quote_free(st.words, st.quoted_buf);
    let w = if st.quoted { flush(st.words, st.quoted_buf) } else { st.words };
    lemma_flush_nonempty(w, st.plain);
    lemma_flush_quote_free(w, st.plain);
}

/// Splits `input` into one-character tokens, in order.
pub fn tokenize(input: &str) -> (r: Vec<String>)
    ensures
        r@.len() == input@.len(),
        forall|i: int| 0 <= i < r@.len() ==> (#[trigger] r@[i])@ == seq![input@[i]],
{
    let n = input.unicode_len();
    let mut r: Vec<String> = Vec::new();
    let mut i: usize = 0;
    while i < n
        invariant
            n == input@.len(),
            i <= n,
            r@.len() == i,
            forall|j: int| 0 <= j < i ==> (#[trigger] r@[j])@ == seq![input@[j]],
        decreases n - i,
    {
        let c = input.get_char(i);
        let mut t = String::new();
        push_char(&mut t, c);
        assert(t@ =~= seq![c]);
        r.push(t);
        i = i + 1;
    }
    r
}

/// Emits the contents of `buf` as a word unless it is empty, and empties it.
fn push_to_vec(buf: &mut String, words: &mut Vec<String>)
    ensures
        views(final(words)@) == flush(views(old(words)@), old(buf)@),
        final(buf)@ == Seq::<char>::empty(),
{
    if buf.unicode_len() > 0 {
        let w = buf.clone();
        words.push(w);
        assert(views(words@) =~= views(old(words)@).push(old(buf)@));
    }
    *buf = String::new();
}

/// Groups the characters of `input` into words. Spaces separate words; a
/// span between quote characters is one word with its spaces kept and its
/// quotes removed.
pub fn lex_tokenized_input(input: &str) -> (r: Vec<String>)
    ensures
        views(r@) == lex_words(input@),
{
    let tokens = tokenize(input);
    let mut words: Vec<String> = Vec::new();
    let mut plain = String::new();
    let mut quoted_buf = String::new();
    let mut quoted = false;
    let n = tokens.len();
    let mut i: usize = 0;
    assert(views(words@) =~= Seq::<Seq<char>>::empty());
    assert(input@.take(0) =~= Seq::<char>::empty());
    while i < n
        invariant
            n == tokens@.len(),
            n == input@.len(),
            i <= n,
            forall|j: int| 0 <= j < n ==> (#[trigger] tokens@[j])@ == seq![input@[j]],
            ({
                let st = lex_run(input@.take(i as int));
                &&& st.quoted == quoted
                &&& st.plain == plain@
                &&& st.quoted_buf == quoted_buf@
                &&& st.words == views(words@)
            }),
        decreases n - i,
    {
        let tok = &tokens[i];
        assert(tok@ == seq![input@[i as int]]);
        let c = tok.as_str().get_char(0);
        assert(input@.take(i + 1).drop_last() =~= input@.take(i as int));
        if c == '"' || c == '\'' {
            if quoted {
                push_to_vec(&mut quoted_buf, &mut words);
                quoted = false;
            } else {
                quoted = true;
            }
        } else if quoted {
            push_char(&mut quoted_buf, c);
        } else if c == ' ' {
            push_to_vec(&mut plain, &mut words);
        } else {
            push_char(&mut plain, c);
        }
        i = i + 1;
    }
    assert(input@.take(n as int) =~= input@);
    if quoted {
        push_to_vec(&mut quoted_buf, &mut words);
    }
    push_to_vec(&mut plain, &mut words);
    words
}

/// A copy of a list of words.
pub fn copy_words(v: &Vec<String>) -> (r: Vec<String>)
    ensures
        views(r@) == views(v@),
{
    let mut r: Vec<String> = Vec::new();
    let n = v.len();
    let mut i: usize = 0;
    while i < n
        invariant
            n == v@.len(),
            i <= n,
            views(r@) == views(v@).take(i as int),
        decreases n - i,
    {
        let w = v[i].clone();
        let ghost prev = views(r@);
        r.push(w);
        i = i + 1;
        assert(views(r@) =~= prev.push(v@[i - 1]@));
        assert(views(r@) =~= views(v@).take(i as int));
    }
    assert(views(v@).take(n as int) =~= views(v@));
    r
}

} // verus!
