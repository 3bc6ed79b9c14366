//! The `calc` builtin: one binary operation on two `i32` operands.
use vstd::prelude::*;
use crate::lexer::views;
use crate::text::{push_signed_decimal, push_str, signed_decimal, string_of};

verus! {

/// The arguments written one after another, with nothing between them.
pub open spec fn concat_all(a: Seq<Seq<char>>) -> Seq<char>
    decreases a.len(),
{
    if a.len() == 0 {
        Seq::empty()
    } else {
        concat_all(a.drop_last()) + a.last()
    }
}

/// The operator of a problem: the first of `x * / % + -` that occurs in it.
pub open spec fn operator_of(p: Seq<char>) -> Option<char> {
    if p.contains('x') {
        Some('x')
    } else if p.contains('*') {
        Some('*')
    } else if p.contains('/') {
        Some('/')
    } else if p.contains('%') {
        Some('%')
    } else if p.contains('+') {
        Some('+')
    } else if p.contains('-') {
        Some('-')
    } else {
        None
    }
}

/// The index of the first `c` in `p`, or the length of `p` when there is
/// none.
pub open spec fn find(p: Seq<char>, c: char) -> int
    decreases p.len(),
{
    if p.len() == 0 {
        0
    } else if p[0] == c {
        0
    } else {
        1 + find(p.skip(1), c)
    }
}

/// The text before the first `op`.
pub open spec fn left_operand(p: Seq<char>, op: char) -> Seq<char> {
    p.take(find(p, op))
}

/// The text between the first `op` and the next one (or the end).
pub open spec fn right_operand(p: Seq<char>, op: char) -> Seq<char> {
    let rest = p.skip(find(p, op) + 1);
    rest.take(find(rest, op))
}

pub open spec fn is_digit(c: char) -> bool {
    '0' <= c && c <= '9'
}

pub open spec fn all_digits(s: Seq<char>) -> bool {
    forall|i: int| 0 <= i < s.len() ==> is_digit(#[trigger] s[i])
}

/// The value of a run of decimal digits.
pub open spec fn digits_value(s: Seq<char>) -> int
    decreases s.len(),
{
    if s.len() == 0 {
        0
    } else {
        digits_value(s.drop_last()) * 10 + (s.last() as int - '0' as int)
    }
}

/// The integer that `s` writes: an optional `+` or `-`, then at least one
/// decimal digit.
pub open spec fn parse_int(s: Seq<char>) -> Option<int> {
    if s.len() > 0 && (s[0] == '-' || s[0] == '+') {
        let d = s.skip(1);
        if d.len() > 0 && all_digits(d) {
            if s[0] == '-' { Some(-digits_value(d)) } else { Some(digits_value(d)) }
        } else {
            None
        }
    } else if s.len() > 0 && all_digits(s) {
        Some(digits_value(s))
    } else {
        None
    }
}

/// The `i32` that `s` writes, if it writes one in range.
pub open spec fn parse_i32(s: Seq<char>) -> Option<i32> {
    match parse_int(s) {
        Some(v) => if i32::MIN <= v <= i32::MAX { Some(v as i32) } else { None },
        None => None,
    }
}

/// The operator and the two operands of a problem, when it has an operator
/// and both operands are `i32` numbers.
pub open spec fn calc_vars(p: Seq<char>) -> Option<(char, i32, i32)> {
    match operator_of(p) {
        Some(op) => match (parse_i32(left_operand(p, op)), parse_i32(right_operand(p, op))) {
            (Some(a), Some(b)) => Some((op, a, b)),
            _ => None,
        },
        None => None,
    }
}

pub open spec fn abs(a: int) -> int {
    if a < 0 { -a } else { a }
}

/// Division that rounds toward zero, as Rust's integer `/` does.
pub open spec fn trunc_div(a: int, b: int) -> int {
    let q = abs(a) / abs(b);
    if (a < 0) == (b < 0) { q } else { -q }
}

/// The remainder that goes with `trunc_div`, as Rust's integer `%`.
pub open spec fn trunc_rem(a: int, b: int) -> int {
    a - b * trunc_div(a, b)
}

/// The value of `a op b`, exactly.
pub open spec fn apply_op(op: char, a: int, b: int) -> int {
    if op == 'x' || op == '*' {
        a * b
    } else if op == '/' {
        trunc_div(a, b)
    } else if op == '%' {
        trunc_rem(a, b)
    } else if op == '+' {
        a + b
    } else {
        a - b
    }
}

pub open spec fn unsupported_text() -> Seq<char> {
    "Error, '' is an unsupported operation."@
}

pub open spec fn invalid_text(p: Seq<char>) -> Seq<char> {
    "Error, '"@ + p + "' is not a valid expression."@
}

pub open spec fn division_by_zero_text() -> Seq<char> {
    "Error, division by zero."@
}

/// What `calc` returns for the problem `p`: the decimal value of the
/// operation, or a line that names what is wrong with it.
pub open spec fn calc_text(p: Seq<char>) -> Seq<char> {
    match operator_of(p) {
        None => unsupported_text(),
        Some(_) => match calc_vars(p) {
            None => invalid_text(p),
            Some((op, a, b)) => if (op == '/' || op == '%') && b == 0 {
                division_by_zero_text()
            } else {
                signed_decimal(apply_op(op, a as int, b as int))
            },
        },
    }
}

fn contains_char(s: &str, c: char) -> (r: bool)
    ensures
        r == s@.contains(c),
{
    let n = s.unicode_len();
    let mut i: usize = 0;
    while i < n
        invariant
            n == s@.len(),
            i <= n,
            forall|j: int| 0 <= j < i ==> s@[j] != c,
        decreases n - i,
    {
        if s.get_char(i) == c {
            return true;
        }
        i = i + 1;
    }
    false
}

/// Finds the operator of a problem; see `operator_of`.
pub fn get_operator(problem: &str) -> (r: Option<char>)
    ensures
        r == operator_of(problem@),
{
    if contains_char(problem, 'x') {
        Some('x')
    } else if contains_char(problem, '*') {
        Some('*')
    } else if contains_char(problem, '/') {
        Some('/')
    } else if contains_char(problem, '%') {
        Some('%')
    } else if contains_char(problem, '+') {
        Some('+')
    } else if contains_char(problem, '-') {
        Some('-')
    } else {
        None
    }
}

proof fn lemma_find(p: Seq<char>, c: char, i: int)
    requires
        0 <= i <= p.len(),
        forall|j: int| 0 <= j < i ==> p[j] != c,
        i == p.len() || p[i] == c,
    ensures
        find(p, c) == i,
    decreases i,
{
    if i > 0 {
        assert(p[0] != c);
        let q = p.skip(1);
        assert forall|j: int| 0 <= j < i - 1 implies q[j] != c by {
            assert(q[j] == p[j + 1]);
        }
        lemma_find(q, c, i - 1);
    }
}

proof fn lemma_find_found(p: Seq<char>, c: char)
    requires
        p.contains(c),
    ensures
        0 <= find(p, c) < p.len(),
        p[find(p, c)] == c,
    decreases p.len(),
{
    if p[0] != c {
        let k = choose|k: int| 0 <= k < p.len() && p[k] == c;
        assert(p.skip(1)[k - 1] == c);
        lemma_find_found(p.skip(1), c);
    }
}

pub fn find_char(s: &str, c: char) -> (r: usize)
    ensures
        r as int == find(s@, c),
        r <= s@.len(),
        r < s@.len() ==> s@[r as int] == c,
        r == s@.len() <==> !s@.contains(c),
{
    let n = s.unicode_len();
    let mut i: usize = 0;
    while i < n
        invariant
            n == s@.len(),
            i <= n,
            forall|j: int| 0 <= j < i ==> s@[j] != c,
        decreases n - i,
    {
        if s.get_char(i) == c {
            proof { lemma_find(s@, c, i as int); }
            return i;
        }
        i = i + 1;
    }
    proof { lemma_find(s@, c, n as int); }
    n
}

proof fn lemma_digits_grow(s: Seq<char>, k: int)
    requires
        0 <= k <= s.len(),
        all_digits(s),
    ensures
        digits_value(s) >= digits_value(s.take(k)),
        digits_value(s.take(k)) >= 0,
    decreases s.len(),
{
    if s.len() == 0 {
        assert(s.take(k) =~= s);
    } else if k == s.len() {
        assert(s.take(k) =~= s);
        lemma_digits_grow(s.drop_last(), k - 1);
        assert(s.drop_last().take(k - 1) =~= s.drop_last());
        assert(is_digit(s[s.len() - 1]));
    } else {
        assert(s.drop_last().take(k) =~= s.take(k));
        lemma_digits_grow(s.drop_last(), k);
        assert(is_digit(s[s.len() - 1]));
    }
}

/// Reads a run of digits from `s[start..]`; `None` when it is empty, holds
/// another character, or is larger than `bound`.
pub fn parse_digits(s: &str, start: usize, bound: u64) -> (r: Option<u64>)
    requires
        start <= s@.len(),
    ensures
        ({
            let d = s@.skip(start as int);
            match r {
                Some(v) => d.len() > 0 && all_digits(d) && v as int == digits_value(d) && v
                    <= bound,
                None => !(d.len() > 0 && all_digits(d)) || digits_value(d) > bound,
            }
        }),
{
    let n = s.unicode_len();
    let ghost d = s@.skip(start as int);
    if start == n {
        return None;
    }
    let mut acc: u128 = 0;
    let mut i: usize = start;
    assert(d.take(0) =~= Seq::<char>::empty());
    while i < n
        invariant
            n == s@.len(),
            start < n,
            d == s@.skip(start as int),
            start <= i <= n,
            acc <= bound,
            all_digits(d.take(i - start)),
            acc as int == digits_value(d.take(i - start)),
        decreases n - i,
    {
        let c = s.get_char(i);
        if !('0' <= c && c <= '9') {
            assert(d[i - start] == c);
            return None;
        }
        let dv = (c as u32 - '0' as u32) as u128;
        assert(d.take(i - start + 1).drop_last() =~= d.take(i - start));
        assert(d.take(i - start + 1).last() == c);
        let next = acc * 10 + dv;
        if next > bound as u128 {
            proof {
                if all_digits(d) {
                    lemma_digits_grow(d, i - start + 1);
                }
                let t = d.take(i - start + 1);
                assert forall|j: int| 0 <= j < t.len() implies is_digit(#[trigger] t[j]) by {
                    if j < i - start {
                        assert(t[j] == d.take(i - start)[j]);
                    }
                }
            }
            return None;
        }
        acc = next;
        i = i + 1;
        proof {
            let t = d.take(i - start);
            assert forall|j: int| 0 <= j < t.len() implies is_digit(#[trigger] t[j]) by {
                if j < i - 1 - start {
                    assert(t[j] == d.take(i - 1 - start)[j]);
                }
            }
        }
    }
    assert(d.take(n - start) =~= d);
    Some(acc as u64)
}

/// Parses a whole string as an `i32`, as `i32::from_str` does.
pub fn parse_i32_text(s: &str) -> (r: Option<i32>)
    ensures
        r == parse_i32(s@),
{
    let n = s.unicode_len();
    if n == 0 {
        return None;
    }
    let c0 = s.get_char(0);
    let signed = c0 == '-' || c0 == '+';
    let start: usize = if signed { 1 } else { 0 };
    assert(s@.skip(0) =~= s@);
    match parse_digits(s, start, 2147483648) {
        None => None,
        Some(v) => {
            if c0 == '-' {
                let r = (0i64 - v as i64) as i32;
                Some(r)
            } else if v <= 2147483647 {
                Some(v as i32)
            } else {
                None
            }
        },
    }
}

/// The operator and operands of a problem; see `calc_vars`.
pub fn get_calc_vars(problem: &str) -> (r: Option<(char, i32, i32)>)
    ensures
        r == calc_vars(problem@),
{
    let op = match get_operator(problem) {
        Some(op) => op,
        None => return None,
    };
    match operands(problem, op) {
        (Some(a), Some(b)) => Some((op, a, b)),
        _ => None,
    }
}

/// The two operands around the first `op`, each parsed as an `i32`.
fn operands(problem: &str, op: char) -> (r: (Option<i32>, Option<i32>))
    requires
        problem@.contains(op),
    ensures
        r == (parse_i32(left_operand(problem@, op)), parse_i32(right_operand(problem@, op))),
{
    let n = problem.unicode_len();
    let i = find_char(problem, op);
    proof {
        lemma_find_found(problem@, op);
    }
    let left = problem.substring_char(0, i);
    let rest = problem.substring_char(i + 1, n);
    let j = find_char(rest, op);
    let right = rest.substring_char(0, j);
    (parse_i32_text(left), parse_i32_text(right))
}

/// `a op b` for an operator of `calc`, computed without overflow.
fn compute(op: char, a: i32, b: i32) -> (r: i64)
    requires
        (op == '/' || op == '%') ==> b != 0,
    ensures
        r as int == apply_op(op, a as int, b as int),
{
    let x = a as i64;
    let y = b as i64;
    if op == 'x' || op == '*' {
        assert(-2147483648 * 2147483648 <= x * y <= 2147483648 * 2147483648) by (nonlinear_arith)
            requires
                -2147483648 <= x <= 2147483647,
                -2147483648 <= y <= 2147483647,
        ;
        x * y
    } else if op == '/' || op == '%' {
        let ua: u64 = if x < 0 { (0 - x) as u64 } else { x as u64 };
        let ub: u64 = if y < 0 { (0 - y) as u64 } else { y as u64 };
        let uq = ua / ub;
        assert(uq <= ua) by (nonlinear_arith)
            requires
                ub >= 1,
                uq == ua / ub,
        ;
        let q: i64 = if (x < 0) == (y < 0) { uq as i64 } else { 0 - uq as i64 };
        assert(q as int == trunc_div(a as int, b as int));
        if op == '/' {
            q
        } else {
            assert(-2147483648 * 2147483648 <= y * q <= 2147483648 * 2147483648) by (nonlinear_arith)
                requires
                    -2147483648 <= y <= 2147483647,
                    -2147483648 <= q <= 2147483648,
            ;
            x - y * q
        }
    } else if op == '+' {
        x + y
    } else {
        x - y
    }
}

/// Evaluates the problem that the arguments write together (`calc 1 + 1`
/// and `calc 1+1` are the same problem); see `calc_text`.
pub fn calc(args: &Vec<String>) -> (r: String)
    ensures
        r@ == calc_text(concat_all(views(args@))),
{
    let mut problem = String::new();
    let n = args.len();
    let mut i: usize = 0;
    while i < n
        invariant
            n == args@.len(),
            i <= n,
            problem@ == concat_all(views(args@).take(i as int)),
        decreases n - i,
    {
        push_str(&mut problem, args[i].as_str());
        i = i + 1;
        assert(views(args@).take(i as int).drop_last() =~= views(args@).take(i - 1));
    }
    assert(views(args@).take(n as int) =~= views(args@));
    let p = problem.as_str();
    if get_operator(p).is_none() {
        return string_of("Error, '' is an unsupported operation.");
    }
    match get_calc_vars(p) {
        None => {
            let mut out = string_of("Error, '");
            push_str(&mut out, p);
            push_str(&mut out, "' is not a valid expression.");
            out
        },
        Some((op, a, b)) => {
            if (op == '/' || op == '%') && b == 0 {
                string_of("Error, division by zero.")
            } else {
                let mut out = String::new();
                push_signed_decimal(&mut out, compute(op, a, b));
                assert(out@ =~= signed_decimal(apply_op(op, a as int, b as int)));
                out
            }
        },
    }
}

/// The operator of the simple calculator: the first of `x / + -` that
/// occurs in the problem.
pub open spec fn simple_operator_of(p: Seq<char>) -> Option<char> {
    if p.contains('x') {
        Some('x')
    } else if p.contains('/') {
        Some('/')
    } else if p.contains('+') {
        Some('+')
    } else if p.contains('-') {
        Some('-')
    } else {
        None
    }
}

/// The problems that the simple calculator can work out: those without an
/// operator, and those whose operands are `i32` numbers and whose value is
/// an `i32` (a division also needs a divisor other than 0).
pub open spec fn simple_calc_defined(p: Seq<char>) -> bool {
    match simple_operator_of(p) {
        None => true,
        Some(op) => match (parse_i32(left_operand(p, op)), parse_i32(right_operand(p, op))) {
            (Some(a), Some(b)) => (op == '/' ==> b != 0) && i32::MIN <= apply_op(op, a as int, b as int)
                <= i32::MAX,
            _ => false,
        },
    }
}

/// The simple calculator's value: `a op b`, or 123456789 when the problem
/// has no operator.
pub open spec fn simple_calc_value(p: Seq<char>) -> int {
    match simple_operator_of(p) {
        None => 123456789,
        Some(op) => apply_op(
            op,
            parse_i32(left_operand(p, op))->Some_0 as int,
            parse_i32(right_operand(p, op))->Some_0 as int,
        ),
    }
}

fn get_simple_operator(problem: &str) -> (r: Option<char>)
    ensures
        r == simple_operator_of(problem@),
{
    if contains_char(problem, 'x') {
        Some('x')
    } else if contains_char(problem, '/') {
        Some('/')
    } else if contains_char(problem, '+') {
        Some('+')
    } else if contains_char(problem, '-') {
        Some('-')
    } else {
        None
    }
}

/// Works out a problem with one of `x / + -`; see `simple_calc_value`.
pub fn calc_return(problem: &str) -> (r: i32)
    requires
        simple_calc_defined(problem@),
    ensures
        r as int == simple_calc_value(problem@),
{
    match get_simple_operator(problem) {
        None => 123456789,
        Some(op) => match operands(problem, op) {
            (Some(a), Some(b)) => compute(op, a, b) as i32,
            _ => 0,
        },
    }
}

/// The line that the simple calculator prints for a problem: the decimal
/// value, or nothing when the problem has no operator.
pub fn calc_run(problem: &str) -> (r: Option<String>)
    requires
        simple_calc_defined(problem@),
    ensures
        simple_operator_of(problem@) is None ==> r is None,
        simple_operator_of(problem@) is Some ==> (r matches Some(t) && t@ == signed_decimal(
            simple_calc_value(problem@),
        )),
{
    if get_simple_operator(problem).is_none() {
        return None;
    }
    let v = calc_return(problem);
    let mut out = String::new();
    push_signed_decimal(&mut out, v as i64);
    Some(out)
}

} // verus!
