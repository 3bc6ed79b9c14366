//! The prompt's small template language: colors and font effects that
//! become terminal escape sequences, `%(command)` spans whose output is put
//! in their place, and `%[file]` spans whose contents are.
use vstd::prelude::*;
use crate::command::{CommandView, ShellCommand, command_of, command_views};
use crate::lexer::{lex_words, views};
use crate::text::{
    decimal, push_char, push_decimal, push_str, replace_all, replace_text, same_text, string_of,
    trim, trimmed,
};
use crate::pipeline::rfind;

verus! {

/// Background colors.
#[derive(Debug, Clone, Copy, PartialEq, Eq, Structural)]
pub enum BgColor {
    Black,
    Red,
    Green,
    Yellow,
    Blue,
    Magenta,
    Cyan,
    White,
}

/// Foreground colors.
#[derive(Debug, Clone, Copy, PartialEq, Eq, Structural)]
pub enum FgColor {
    Black,
    Red,
    Green,
    Yellow,
    Blue,
    Magenta,
    Cyan,
    White,
}

/// A foreground or a background color.
#[derive(Debug, Clone, Copy, PartialEq, Eq, Structural)]
pub enum Color {
    Bg(BgColor),
    Fg(FgColor),
}

/// Font effects, and the resets.
#[derive(Debug, Clone, Copy, PartialEq, Eq, Structural)]
pub enum FontEffects {
    ResetBackground,
    ResetEverything,
    ResetForeground,
    Bold,
    Italics,
    Underline,
}

/// The position of a color in the terminal's table of eight.
pub open spec fn bg_index(c: BgColor) -> u8 {
    match c {
        BgColor::Black => 0,
        BgColor::Red => 1,
        BgColor::Green => 2,
        BgColor::Yellow => 3,
        BgColor::Blue => 4,
        BgColor::Magenta => 5,
        BgColor::Cyan => 6,
        BgColor::White => 7,
    }
}

pub open spec fn fg_index(c: FgColor) -> u8 {
    match c {
        FgColor::Black => 0,
        FgColor::Red => 1,
        FgColor::Green => 2,
        FgColor::Yellow => 3,
        FgColor::Blue => 4,
        FgColor::Magenta => 5,
        FgColor::Cyan => 6,
        FgColor::White => 7,
    }
}

impl BgColor {
    /// The SGR parameter that selects this background: 40 to 47.
    pub fn to_u8(self) -> (r: u8)
        ensures
            r == 40 + bg_index(self),
    {
        match self {
            BgColor::Black => 40,
            BgColor::Red => 41,
            BgColor::Green => 42,
            BgColor::Yellow => 43,
            BgColor::Blue => 44,
            BgColor::Magenta => 45,
            BgColor::Cyan => 46,
            BgColor::White => 47,
        }
    }
}

impl FgColor {
    /// The SGR parameter that selects this foreground: 30 to 37.
    pub fn to_u8(self) -> (r: u8)
        ensures
            r == 30 + fg_index(self),
    {
        match self {
            FgColor::Black => 30,
            FgColor::Red => 31,
            FgColor::Green => 32,
            FgColor::Yellow => 33,
            FgColor::Blue => 34,
            FgColor::Magenta => 35,
            FgColor::Cyan => 36,
            FgColor::White => 37,
        }
    }
}

impl Color {
    /// The SGR parameter of the color, foreground or background.
    pub fn to_u8(self) -> (r: u8)
        ensures
            r == match self {
                Color::Bg(b) => 40 + bg_index(b),
                Color::Fg(f) => 30 + fg_index(f),
            },
    {
        match self {
            Color::Bg(b) => b.to_u8(),
            Color::Fg(f) => f.to_u8(),
        }
    }
}

pub open spec fn effect_code(e: FontEffects) -> u8 {
    match e {
        FontEffects::ResetBackground => 49,
        FontEffects::ResetEverything => 0,
        FontEffects::ResetForeground => 39,
        FontEffects::Bold => 1,
        FontEffects::Italics => 3,
        FontEffects::Underline => 4,
    }
}

impl FontEffects {
    /// The SGR parameter of the effect.
    pub fn to_u8(&self) -> (r: u8)
        ensures
            r == effect_code(*self),
    {
        match self {
            FontEffects::ResetBackground => 49,
            FontEffects::ResetEverything => 0,
            FontEffects::ResetForeground => 39,
            FontEffects::Bold => 1,
            FontEffects::Italics => 3,
            FontEffects::Underline => 4,
        }
    }
}

/// The text that `EsBuilder` holds after the parameters `codes`: the
/// control sequence introducer, then each parameter followed by `;`.
pub open spec fn es_body(codes: Seq<u8>) -> Seq<char>
    decreases codes.len(),
{
    if codes.len() == 0 {
        seq!['\x1b', '[']
    } else {
        es_body(codes.drop_last()) + decimal(codes.last() as nat) + seq![';']
    }
}

/// What `build` makes of the text `t`: its last character becomes `m`.
pub open spec fn close_sequence(t: Seq<char>) -> Seq<char> {
    if t.len() == 0 {
        seq!['m']
    } else {
        t.drop_last().push('m')
    }
}

/// The escape sequence that sets all of `codes` at once.
pub open spec fn escape_of(codes: Seq<u8>) -> Seq<char> {
    close_sequence(es_body(codes))
}

/// A finished escape sequence.
#[derive(Debug, Clone)]
pub struct EscapeSequence {
    escape_sequence: String,
}

impl View for EscapeSequence {
    type V = Seq<char>;

    closed spec fn view(&self) -> Seq<char> {
        self.escape_sequence@
    }
}

impl EscapeSequence {
    /// A builder that holds no parameter yet.
    pub fn builder() -> (r: EsBuilder)
        ensures
            r@ == es_body(Seq::empty()),
    {
        EsBuilder::new()
    }

    /// The text of the sequence.
    pub fn sequence(&self) -> (r: String)
        ensures
            r@ == self@,
    {
        self.escape_sequence.clone()
    }
}

/// Builds an escape sequence from SGR parameters.
#[derive(Clone, Debug)]
pub struct EsBuilder {
    escape_sequence: String,
}

impl View for EsBuilder {
    type V = Seq<char>;

    closed spec fn view(&self) -> Seq<char> {
        self.escape_sequence@
    }
}

impl Default for EsBuilder {
    fn default() -> (r: EsBuilder)
        ensures
            r@ == es_body(Seq::empty()),
    {
        EsBuilder::new()
    }
}

impl EsBuilder {
    /// A builder that holds no parameter yet.
    pub fn new() -> (r: EsBuilder)
        ensures
            r@ == es_body(Seq::empty()),
    {
        let mut s = String::new();
        push_char(&mut s, '\x1b');
        push_char(&mut s, '[');
        assert(s@ =~= seq!['\x1b', '[']);
        EsBuilder { escape_sequence: s }
    }

    /// Adds one parameter.
    pub fn append(&mut self, argument: u8)
        ensures
            final(self)@ == old(self)@ + decimal(argument as nat) + seq![';'],
    {
        push_decimal(&mut self.escape_sequence, argument as u64);
        push_char(&mut self.escape_sequence, ';');
        assert(self@ =~= old(self)@ + decimal(argument as nat) + seq![';']);
    }

    /// Ends the sequence: the `;` after the last parameter becomes `m`. The
    /// builder keeps the finished text.
    pub fn build(&mut self) -> (r: EscapeSequence)
        ensures
            final(self)@ == close_sequence(old(self)@),
            r@ == close_sequence(old(self)@),
    {
        let n = self.escape_sequence.unicode_len();
        let mut s = String::new();
        if n > 0 {
            push_str(&mut s, self.escape_sequence.as_str().substring_char(0, n - 1));
        }
        push_char(&mut s, 'm');
        assert(s@ =~= close_sequence(old(self)@));
        self.escape_sequence = s;
        EscapeSequence { escape_sequence: self.escape_sequence.clone() }
    }
}

/// The escape sequence for a list of parameters, made with `EsBuilder`.
pub fn escape_for(codes: &Vec<u8>) -> (r: String)
    ensures
        r@ == escape_of(codes@),
{
    let mut b = EsBuilder::new();
    let n = codes.len();
    let mut i: usize = 0;
    while i < n
        invariant
            n == codes@.len(),
            i <= n,
            b@ == es_body(codes@.take(i as int)),
        decreases n - i,
    {
        b.append(codes[i]);
        i = i + 1;
        assert(codes@.take(i as int).drop_last() =~= codes@.take(i - 1));
    }
    assert(codes@.take(n as int) =~= codes@);
    b.build().sequence()
}

/// Where the span scanner stands: in plain text, just after a `%`, or
/// inside a span.
#[derive(Debug, Clone, Copy, PartialEq, Eq, Structural)]
pub enum SpanMode {
    Outside,
    Percent,
    Inside,
}

pub struct SpanState {
    pub mode: SpanMode,
    pub buf: Seq<char>,
    pub spans: Seq<Seq<char>>,
}

/// One step of the span scanner. `%` followed by `open` starts a span, and
/// `close` ends it; inside a span further `open` characters are dropped.
pub open spec fn span_step(st: SpanState, c: char, open: char, close: char) -> SpanState {
    match st.mode {
        SpanMode::Inside => if c == close {
            SpanState { mode: SpanMode::Outside, buf: Seq::empty(), spans: st.spans.push(st.buf) }
        } else if c == open {
            st
        } else {
            SpanState { buf: st.buf.push(c), ..st }
        },
        SpanMode::Percent => if c == open {
            SpanState { mode: SpanMode::Inside, buf: Seq::empty(), ..st }
        } else if c == '%' {
            st
        } else {
            SpanState { mode: SpanMode::Outside, ..st }
        },
        SpanMode::Outside => if c == '%' {
            SpanState { mode: SpanMode::Percent, ..st }
        } else {
            st
        },
    }
}

pub open spec fn span_run(s: Seq<char>, open: char, close: char) -> SpanState
    decreases s.len(),
{
    if s.len() == 0 {
        SpanState { mode: SpanMode::Outside, buf: Seq::empty(), spans: Seq::empty() }
    } else {
        span_step(span_run(s.drop_last(), open, close), s.last(), open, close)
    }
}

/// The closed spans of `s`, in order; a span still open at the end is
/// dropped.
pub open spec fn spans(s: Seq<char>, open: char, close: char) -> Seq<Seq<char>> {
    span_run(s, open, close).spans
}

/// Scans `input` for spans; see `spans`.
pub fn delimited_spans(input: &str, open: char, close: char) -> (r: Vec<String>)
    requires
        open != '%',
        close != '%',
        open != close,
    ensures
        views(r@) == spans(input@, open, close),
{
    let n = input.unicode_len();
    let mut mode = SpanMode::Outside;
    let mut buf = String::new();
    let mut out: Vec<String> = Vec::new();
    let mut i: usize = 0;
    assert(input@.take(0) =~= Seq::<char>::empty());
    assert(views(out@) =~= Seq::<Seq<char>>::empty());
    while i < n
        invariant
            n == input@.len(),
            i <= n,
            ({
                let st = span_run(input@.take(i as int), open, close);
                &&& st.mode == mode
                &&& st.buf == buf@
                &&& st.spans == views(out@)
            }),
        decreases n - i,
    {
        let c = input.get_char(i);
        assert(input@.take(i + 1).drop_last() =~= input@.take(i as int));
        match mode {
            SpanMode::Inside => {
                if c == close {
                    let ghost prev = views(out@);
                    out.push(buf);
                    assert(views(out@) =~= prev.push(span_run(input@.take(i as int), open, close).buf));
                    buf = String::new();
                    mode = SpanMode::Outside;
                } else if c != open {
                    push_char(&mut buf, c);
                }
            },
            SpanMode::Percent => {
                if c == open {
                    buf = String::new();
                    mode = SpanMode::Inside;
                } else if c != '%' {
                    mode = SpanMode::Outside;
                }
            },
            SpanMode::Outside => {
                if c == '%' {
                    mode = SpanMode::Percent;
                }
            },
        }
        i = i + 1;
    }
    assert(input@.take(n as int) =~= input@);
    out
}

/// The commands of the spans: each span with at least one word, as a
/// command descriptor.
pub open spec fn commands_of(sp: Seq<Seq<char>>) -> Seq<CommandView>
    decreases sp.len(),
{
    if sp.len() == 0 {
        Seq::empty()
    } else if lex_words(sp.last()).len() > 0 {
        commands_of(sp.drop_last()).push(command_of(sp.last()))
    } else {
        commands_of(sp.drop_last())
    }
}

/// The commands that a prompt runs: those written `%(command)`.
pub fn get_commands_from_input(input: &str) -> (r: Vec<ShellCommand>)
    ensures
        command_views(r@) == commands_of(spans(input@, '(', ')')),
{
    let sp = delimited_spans(input, '(', ')');
    let ghost v = views(sp@);
    let mut out: Vec<ShellCommand> = Vec::new();
    let n = sp.len();
    let mut i: usize = 0;
    assert(command_views(out@) =~= commands_of(v.take(0)));
    while i < n
        invariant
            n == sp@.len(),
            v == views(sp@),
            i <= n,
            command_views(out@) == commands_of(v.take(i as int)),
        decreases n - i,
    {
        assert(v.take(i + 1).drop_last() =~= v.take(i as int));
        assert(v.take(i + 1).last() == sp@[i as int]@);
        match ShellCommand::new(sp[i].as_str()) {
            Some(c) => {
                let ghost prev = command_views(out@);
                out.push(c);
                assert(command_views(out@) =~= prev.push(c@));
            },
            None => {},
        }
        i = i + 1;
    }
    assert(v.take(n as int) =~= v);
    out
}

/// The files whose contents a prompt shows: those written `%[file]`.
pub fn get_files_from_input(input: &str) -> (r: Vec<String>)
    ensures
        views(r@) == spans(input@, '[', ']'),
{
    delimited_spans(input, '[', ']')
}

/// Where the effect scanner stands.
#[derive(Debug, Clone, Copy, PartialEq, Eq, Structural)]
pub enum EffectMode {
    /// In plain text.
    Text,
    /// Just after a `%`.
    Percent,
    /// Just after an `F`.
    Fg,
    /// Just after a `B`.
    Bg,
    /// Inside `%{...}`.
    Option,
    /// Inside `F<...>`.
    FgName,
    /// Inside `B<...>`.
    BgName,
}

/// The scanner's state: the mode, the name read so far, the parameters not
/// yet written, and the output.
pub struct EffectState {
    pub mode: EffectMode,
    pub buf: Seq<char>,
    pub codes: Seq<u8>,
    pub out: Seq<char>,
}

/// The font effect that an option names, if any.
pub open spec fn effect_named(n: Seq<char>) -> Option<FontEffects> {
    if n == "b"@ {
        Some(FontEffects::Bold)
    } else if n == "i"@ {
        Some(FontEffects::Italics)
    } else if n == "rb"@ {
        Some(FontEffects::ResetBackground)
    } else if n == "re"@ {
        Some(FontEffects::ResetEverything)
    } else if n == "rf"@ {
        Some(FontEffects::ResetForeground)
    } else if n == "u"@ {
        Some(FontEffects::Underline)
    } else {
        None
    }
}

/// The foreground that a color name names; an unknown name is white.
pub open spec fn fg_named(n: Seq<char>) -> FgColor {
    if n == "BLACK"@ {
        FgColor::Black
    } else if n == "RED"@ {
        FgColor::Red
    } else if n == "GREEN"@ {
        FgColor::Green
    } else if n == "YELLOW"@ {
        FgColor::Yellow
    } else if n == "BLUE"@ {
        FgColor::Blue
    } else if n == "MAGENTA"@ {
        FgColor::Magenta
    } else if n == "CYAN"@ {
        FgColor::Cyan
    } else {
        FgColor::White
    }
}

/// The background that a color name names; an unknown name is white.
pub open spec fn bg_named(n: Seq<char>) -> BgColor {
    if n == "BLACK"@ {
        BgColor::Black
    } else if n == "RED"@ {
        BgColor::Red
    } else if n == "GREEN"@ {
        BgColor::Green
    } else if n == "YELLOW"@ {
        BgColor::Yellow
    } else if n == "BLUE"@ {
        BgColor::Blue
    } else if n == "MAGENTA"@ {
        BgColor::Magenta
    } else if n == "CYAN"@ {
        BgColor::Cyan
    } else {
        BgColor::White
    }
}

/// The escape sequence for the parameters waiting to be written; nothing
/// when none is.
pub open spec fn pending_text(codes: Seq<u8>) -> Seq<char> {
    if codes.len() == 0 {
        Seq::empty()
    } else {
        escape_of(codes)
    }
}

/// Writes the waiting parameters as one escape sequence, then `t`, and goes
/// back to plain text.
pub open spec fn emit(st: EffectState, t: Seq<char>) -> EffectState {
    EffectState {
        mode: EffectMode::Text,
        buf: Seq::empty(),
        codes: Seq::empty(),
        out: st.out + pending_text(st.codes) + t,
    }
}

/// A character read in plain text: `%`, `F` and `B` may start an effect;
/// any other character is written.
pub open spec fn text_step(st: EffectState, c: char) -> EffectState {
    if c == '%' {
        EffectState { mode: EffectMode::Percent, ..st }
    } else if c == 'F' {
        EffectState { mode: EffectMode::Fg, ..st }
    } else if c == 'B' {
        EffectState { mode: EffectMode::Bg, ..st }
    } else {
        emit(st, seq![c])
    }
}

/// One step of the scanner. `%{name}` adds a font effect (an unknown name is
/// written back as it stood, for later substitution), `F<COLOR>` a
/// foreground and `B<COLOR>` a background. Effects that follow each other
/// are written as one sequence, before the next text.
pub open spec fn effect_step(st: EffectState, c: char) -> EffectState {
    match st.mode {
        EffectMode::Text => text_step(st, c),
        EffectMode::Percent => if c == '{' {
            EffectState { mode: EffectMode::Option, buf: Seq::empty(), ..st }
        } else {
            text_step(emit(st, seq!['%']), c)
        },
        EffectMode::Fg => if c == '<' {
            EffectState { mode: EffectMode::FgName, buf: Seq::empty(), ..st }
        } else {
            text_step(emit(st, seq!['F']), c)
        },
        EffectMode::Bg => if c == '<' {
            EffectState { mode: EffectMode::BgName, buf: Seq::empty(), ..st }
        } else {
            text_step(emit(st, seq!['B']), c)
        },
        EffectMode::Option => if c == '}' {
            match effect_named(st.buf) {
                Some(e) => EffectState {
                    mode: EffectMode::Text,
                    buf: Seq::empty(),
                    codes: st.codes.push(effect_code(e)),
                    out: st.out,
                },
                None => emit(st, seq!['%', '{'] + st.buf + seq!['}']),
            }
        } else {
            EffectState { buf: st.buf.push(c), ..st }
        },
        EffectMode::FgName => if c == '>' {
            EffectState {
                mode: EffectMode::Text,
                buf: Seq::empty(),
                codes: st.codes.push((30 + fg_index(fg_named(st.buf))) as u8),
                out: st.out,
            }
        } else {
            EffectState { buf: st.buf.push(c), ..st }
        },
        EffectMode::BgName => if c == '>' {
            EffectState {
                mode: EffectMode::Text,
                buf: Seq::empty(),
                codes: st.codes.push((40 + bg_index(bg_named(st.buf))) as u8),
                out: st.out,
            }
        } else {
            EffectState { buf: st.buf.push(c), ..st }
        },
    }
}

pub open spec fn effect_run(s: Seq<char>) -> EffectState
    decreases s.len(),
{
    if s.len() == 0 {
        EffectState { mode: EffectMode::Text, buf: Seq::empty(), codes: Seq::empty(), out: Seq::empty() }
    } else {
        effect_step(effect_run(s.drop_last()), s.last())
    }
}

/// At the end of the input, what was started and not finished is written
/// as it stood, and the waiting parameters are written.
pub open spec fn effect_finish(st: EffectState) -> Seq<char> {
    let tail = match st.mode {
        EffectMode::Text => Seq::empty(),
        EffectMode::Percent => seq!['%'],
        EffectMode::Fg => seq!['F'],
        EffectMode::Bg => seq!['B'],
        EffectMode::Option => seq!['%', '{'] + st.buf,
        EffectMode::FgName => seq!['F', '<'] + st.buf,
        EffectMode::BgName => seq!['B', '<'] + st.buf,
    };
    emit(st, tail).out
}

/// The prompt with its colors and font effects turned into escape
/// sequences.
pub open spec fn prompt_effects(s: Seq<char>) -> Seq<char> {
    effect_finish(effect_run(s))
}

struct EffectScanner {
    mode: EffectMode,
    buf: String,
    codes: Vec<u8>,
    out: String,
}

impl EffectScanner {
    spec fn state(&self) -> EffectState {
        EffectState { mode: self.mode, buf: self.buf@, codes: self.codes@, out: self.out@ }
    }

    fn emit(&mut self, t: &str)
        ensures
            final(self).state() == emit(old(self).state(), t@),
    {
        if self.codes.len() > 0 {
            let e = escape_for(&self.codes);
            push_str(&mut self.out, e.as_str());
        }
        push_str(&mut self.out, t);
        self.codes = Vec::new();
        self.buf = String::new();
        self.mode = EffectMode::Text;
        assert(self.out@ =~= old(self).out@ + pending_text(old(self).codes@) + t@);
        assert(self.codes@ =~= Seq::<u8>::empty());
    }

    fn emit_char(&mut self, c: char)
        ensures
            final(self).state() == emit(old(self).state(), seq![c]),
    {
        let mut t = String::new();
        push_char(&mut t, c);
        assert(t@ =~= seq![c]);
        self.emit(t.as_str());
    }

    fn text_step(&mut self, c: char)
        ensures
            final(self).state() == text_step(old(self).state(), c),
    {
        if c == '%' {
            self.mode = EffectMode::Percent;
        } else if c == 'F' {
            self.mode = EffectMode::Fg;
        } else if c == 'B' {
            self.mode = EffectMode::Bg;
        } else {
            self.emit_char(c);
        }
    }

    fn emit_span(&mut self, open: &str, close: &str)
        ensures
            final(self).state() == emit(old(self).state(), open@ + old(self).buf@ + close@),
    {
        let mut t = string_of(open);
        push_str(&mut t, self.buf.as_str());
        push_str(&mut t, close);
        self.emit(t.as_str());
    }

    fn step(&mut self, c: char)
        ensures
            final(self).state() == effect_step(old(self).state(), c),
    {
        proof {
            reveal_strlit("%{");
            reveal_strlit("}");
            reveal_strlit("");
        }
        match self.mode {
            EffectMode::Text => self.text_step(c),
            EffectMode::Percent => {
                if c == '{' {
                    self.mode = EffectMode::Option;
                    self.buf = String::new();
                } else {
                    self.emit_char('%');
                    self.text_step(c);
                }
            },
            EffectMode::Fg => {
                if c == '<' {
                    self.mode = EffectMode::FgName;
                    self.buf = String::new();
                } else {
                    self.emit_char('F');
                    self.text_step(c);
                }
            },
            EffectMode::Bg => {
                if c == '<' {
                    self.mode = EffectMode::BgName;
                    self.buf = String::new();
                } else {
                    self.emit_char('B');
                    self.text_step(c);
                }
            },
            EffectMode::Option => {
                if c == '}' {
                    match effect_of_name(self.buf.as_str()) {
                        Some(e) => {
                            self.codes.push(e.to_u8());
                            self.mode = EffectMode::Text;
                            self.buf = String::new();
                        },
                        None => {
                            self.emit_span("%{", "}");
                            assert(seq!['%', '{'] =~= "%{"@);
                            assert(seq!['}'] =~= "}"@);
                        },
                    }
                } else {
                    push_char(&mut self.buf, c);
                }
            },
            EffectMode::FgName => {
                if c == '>' {
                    let code = fg_of_name(self.buf.as_str()).to_u8();
                    self.codes.push(code);
                    self.mode = EffectMode::Text;
                    self.buf = String::new();
                } else {
                    push_char(&mut self.buf, c);
                }
            },
            EffectMode::BgName => {
                if c == '>' {
                    let code = bg_of_name(self.buf.as_str()).to_u8();
                    self.codes.push(code);
                    self.mode = EffectMode::Text;
                    self.buf = String::new();
                } else {
                    push_char(&mut self.buf, c);
                }
            },
        }
    }

    fn finish(&mut self) -> (r: String)
        ensures
            r@ == effect_finish(old(self).state()),
    {
        proof {
            reveal_strlit("%");
            reveal_strlit("F");
            reveal_strlit("B");
            reveal_strlit("%{");
            reveal_strlit("F<");
            reveal_strlit("B<");
            reveal_strlit("");
        }
        match self.mode {
            EffectMode::Text => self.emit(""),
            EffectMode::Percent => self.emit("%"),
            EffectMode::Fg => self.emit("F"),
            EffectMode::Bg => self.emit("B"),
            EffectMode::Option => self.emit_span("%{", ""),
            EffectMode::FgName => self.emit_span("F<", ""),
            EffectMode::BgName => self.emit_span("B<", ""),
        }
        assert(self.out@ =~= effect_finish(old(self).state()));
        self.out.clone()
    }
}

fn effect_of_name(n: &str) -> (r: Option<FontEffects>)
    ensures
        r == effect_named(n@),
{
    if same_text(n, "b") {
        Some(FontEffects::Bold)
    } else if same_text(n, "i") {
        Some(FontEffects::Italics)
    } else if same_text(n, "rb") {
        Some(FontEffects::ResetBackground)
    } else if same_text(n, "re") {
        Some(FontEffects::ResetEverything)
    } else if same_text(n, "rf") {
        Some(FontEffects::ResetForeground)
    } else if same_text(n, "u") {
        Some(FontEffects::Underline)
    } else {
        None
    }
}

fn fg_of_name(n: &str) -> (r: FgColor)
    ensures
        r == fg_named(n@),
{
    if same_text(n, "BLACK") {
        FgColor::Black
    } else if same_text(n, "RED") {
        FgColor::Red
    } else if same_text(n, "GREEN") {
        FgColor::Green
    } else if same_text(n, "YELLOW") {
        FgColor::Yellow
    } else if same_text(n, "BLUE") {
        FgColor::Blue
    } else if same_text(n, "MAGENTA") {
        FgColor::Magenta
    } else if same_text(n, "CYAN") {
        FgColor::Cyan
    } else {
        FgColor::White
    }
}

fn bg_of_name(n: &str) -> (r: BgColor)
    ensures
        r == bg_named(n@),
{
    if same_text(n, "BLACK") {
        BgColor::Black
    } else if same_text(n, "RED") {
        BgColor::Red
    } else if same_text(n, "GREEN") {
        BgColor::Green
    } else if same_text(n, "YELLOW") {
        BgColor::Yellow
    } else if same_text(n, "BLUE") {
        BgColor::Blue
    } else if same_text(n, "MAGENTA") {
        BgColor::Magenta
    } else if same_text(n, "CYAN") {
        BgColor::Cyan
    } else {
        BgColor::White
    }
}

/// Turns the colors and font effects of a prompt into escape sequences;
/// see `prompt_effects`.
pub fn parse_prompt_effects(input: &str) -> (r: String)
    ensures
        r@ == prompt_effects(input@),
{
    let mut sc = EffectScanner { mode: EffectMode::Text, buf: String::new(), codes: Vec::new(), out: String::new() };
    let n = input.unicode_len();
    let mut i: usize = 0;
    assert(input@.take(0) =~= Seq::<char>::empty());
    assert(sc.state() == effect_run(input@.take(0))) by {
        assert(sc.codes@ =~= Seq::<u8>::empty());
    }
    while i < n
        invariant
            n == input@.len(),
            i <= n,
            sc.state() == effect_run(input@.take(i as int)),
        decreases n - i,
    {
        let c = input.get_char(i);
        assert(input@.take(i + 1).drop_last() =~= input@.take(i as int));
        sc.step(c);
        i = i + 1;
    }
    assert(input@.take(n as int) =~= input@);
    sc.finish()
}

/// `text` with each span, written `%`, `open`, the span and `close`,
/// replaced by the matching output with its blanks trimmed; the spans are
/// taken in order.
pub open spec fn fill_spans(
    text: Seq<char>,
    open: char,
    close: char,
    sp: Seq<Seq<char>>,
    outs: Seq<Seq<char>>,
) -> Seq<char>
    decreases sp.len(),
{
    if sp.len() == 0 || outs.len() == 0 {
        text
    } else {
        replace_all(
            fill_spans(text, open, close, sp.drop_last(), outs.drop_last()),
            seq!['%', open] + sp.last() + seq![close],
            trimmed(outs.last()),
        )
    }
}

/// Puts the outputs of a prompt's spans in their place; see `fill_spans`.
pub fn substitute_spans(
    text: &str,
    open: char,
    close: char,
    spans: &Vec<String>,
    outputs: &Vec<String>,
) -> (r: String)
    requires
        spans@.len() == outputs@.len(),
    ensures
        r@ == fill_spans(text@, open, close, views(spans@), views(outputs@)),
{
    let mut t = string_of(text);
    let n = spans.len();
    let mut i: usize = 0;
    assert(views(spans@).take(0) =~= Seq::<Seq<char>>::empty());
    while i < n
        invariant
            n == spans@.len(),
            n == outputs@.len(),
            i <= n,
            t@ == fill_spans(
                text@,
                open,
                close,
                views(spans@).take(i as int),
                views(outputs@).take(i as int),
            ),
        decreases n - i,
    {
        let mut key = String::new();
        push_char(&mut key, '%');
        push_char(&mut key, open);
        push_str(&mut key, spans[i].as_str());
        push_char(&mut key, close);
        let value = trim(outputs[i].as_str());
        t = replace_text(t.as_str(), key.as_str(), value.as_str());
        i = i + 1;
        assert(views(spans@).take(i as int).drop_last() =~= views(spans@).take(i - 1));
        assert(views(outputs@).take(i as int).drop_last() =~= views(outputs@).take(i - 1));
        assert(key@ =~= seq!['%', open] + views(spans@).take(i as int).last() + seq![close]);
    }
    assert(views(spans@).take(n as int) =~= views(spans@));
    assert(views(outputs@).take(n as int) =~= views(outputs@));
    t
}

/// What the prompt's variables stand for, gathered by the caller.
pub struct PromptContext {
    /// The working directory.
    pub cwd: String,
    /// The date, for `%{D}`.
    pub date: String,
    /// The time on a 12-hour clock, for `%{T12}`.
    pub time12: String,
    /// The time on a 24-hour clock, for `%{T24}`.
    pub time24: String,
    pub home: String,
    pub user: String,
}

/// The part of a path after its last `/`.
pub open spec fn last_segment(p: Seq<char>) -> Seq<char> {
    p.skip(rfind(p, '/') + 1)
}

/// `text` with its variables replaced: `%{CL}` by the working directory,
/// `%{CS}` by its last segment, `%{D}`, `%{T12}` and `%{T24}` by the date
/// and times, `%{H}` by the home directory, `%{U}` by the user, and the two
/// characters `\n` by a newline.
pub open spec fn fill_variables(text: Seq<char>, ctx: PromptContext) -> Seq<char> {
    let t1 = replace_all(text, "%{CL}"@, ctx.cwd@);
    let t2 = replace_all(t1, "%{CS}"@, last_segment(ctx.cwd@));
    let t3 = replace_all(t2, "%{D}"@, ctx.date@);
    let t4 = replace_all(t3, "%{H}"@, ctx.home@);
    let t5 = replace_all(t4, "%{T12}"@, ctx.time12@);
    let t6 = replace_all(t5, "%{T24}"@, ctx.time24@);
    let t7 = replace_all(t6, "%{U}"@, ctx.user@);
    replace_all(t7, "\\n"@, "\n"@)
}

fn last_segment_of(p: &str) -> (r: String)
    ensures
        r@ == last_segment(p@),
{
    let n = p.unicode_len();
    let mut i: usize = n;
    assert(p@.take(n as int) =~= p@);
    while i > 0
        invariant
            n == p@.len(),
            i <= n,
            rfind(p@.take(i as int), '/') == rfind(p@, '/'),
        decreases i,
    {
        assert(p@.take(i as int).drop_last() =~= p@.take(i - 1));
        if p.get_char(i - 1) == '/' {
            return string_of(p.substring_char(i, n));
        }
        i = i - 1;
    }
    assert(p@.take(0) =~= Seq::<char>::empty());
    assert(p@.skip(0) =~= p@);
    string_of(p)
}

/// The last step of a prompt: its effects become escape sequences, then its
/// variables are replaced.
pub fn finish_prompt(text: &str, ctx: &PromptContext) -> (r: String)
    ensures
        r@ == fill_variables(prompt_effects(text@), *ctx),
{
    let t0 = parse_prompt_effects(text);
    let t1 = replace_text(t0.as_str(), "%{CL}", ctx.cwd.as_str());
    let cs = last_segment_of(ctx.cwd.as_str());
    let t2 = replace_text(t1.as_str(), "%{CS}", cs.as_str());
    let t3 = replace_text(t2.as_str(), "%{D}", ctx.date.as_str());
    let t4 = replace_text(t3.as_str(), "%{H}", ctx.home.as_str());
    let t5 = replace_text(t4.as_str(), "%{T12}", ctx.time12.as_str());
    let t6 = replace_text(t5.as_str(), "%{T24}", ctx.time24.as_str());
    let t7 = replace_text(t6.as_str(), "%{U}", ctx.user.as_str());
    replace_text(t7.as_str(), "\\n", "\n")
}

} // verus!
