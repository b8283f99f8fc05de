//! The recursive-descent parser: from source text to the syntax tree, with
//! local recovery for a missing `=` or `;` in a `let` binding.

use vstd::prelude::*;
use vstd::string::StrSliceExecFns;

use crate::ast::{Binding, ExprKind, Function, Program};
use crate::context::{error_messages, ParsingContext, PassResult};
use crate::lowering::{wf_defines, wf_expr, wf_functions, wf_program};
use crate::scan::{
    is_space, spec_digits_end, spec_ident_end, spec_is_digit, spec_is_ident_char,
    spec_is_letter, spec_skip_ws,
};
use crate::text::{dec_digits, string_push_char, u64_to_string};

verus! {

broadcast use {crate::scan::lemma_skip_ws_low, crate::scan::lemma_skip_ws_high,
    crate::scan::lemma_ident_end_low, crate::scan::lemma_ident_end_high,
    crate::scan::lemma_digits_end_low, crate::scan::lemma_digits_end_high};

// ---------------------------------------------------------------------------
// Characters and positions
// ---------------------------------------------------------------------------

/// The characters of a source text, for position-based scanning.
pub fn chars_of(s: &str) -> (v: Vec<char>)
    ensures
        v@ == s@,
{
    let n = s.unicode_len();
    let mut v: Vec<char> = Vec::new();
    let mut i: usize = 0;
    while i < n
        invariant
            i <= n,
            n == s@.len(),
            v@ =~= s@.subrange(0, i as int),
        decreases n - i,
    {
        v.push(s.get_char(i));
        proof {
            assert(v@ =~= s@.subrange(0, i + 1));
        }
        i = i + 1;
    }
    proof {
        assert(s@.subrange(0, n as int) =~= s@);
    }
    v
}

fn is_space_exec(c: char) -> (r: bool)
    ensures
        r == is_space(c),
{
    c == ' ' || c == '\t' || c == '\r' || c == '\n'
}

fn is_letter_exec(c: char) -> (r: bool)
    ensures
        r == spec_is_letter(c),
{
    ('a' <= c && c <= 'z') || ('A' <= c && c <= 'Z')
}

fn is_digit_exec(c: char) -> (r: bool)
    ensures
        r == spec_is_digit(c),
{
    '0' <= c && c <= '9'
}

fn is_ident_start(c: char) -> (r: bool)
    ensures
        r == (spec_is_letter(c) || c == '_'),
{
    is_letter_exec(c) || c == '_'
}

fn is_ident_char(c: char) -> (r: bool)
    ensures
        r == (spec_is_letter(c) || spec_is_digit(c) || c == '_'),
{
    is_letter_exec(c) || is_digit_exec(c) || c == '_'
}

/// Skips insignificant whitespace.
pub fn skip_ws(s: &Vec<char>, pos: usize) -> (p: usize)
    requires
        pos <= s@.len(),
    ensures
        pos <= p <= s@.len(),
        p == spec_skip_ws(s@, pos as int),
        p < s@.len() ==> !is_space(s@[p as int]),
    decreases s@.len() - pos,
{
    let mut p = pos;
    while p < s.len() && is_space_exec(s[p])
        invariant
            pos <= p <= s@.len(),
            spec_skip_ws(s@, pos as int) == spec_skip_ws(s@, p as int),
        decreases s@.len() - p,
    {
        p = p + 1;
    }
    p
}

/// The 1-based line of a position: one more than the newlines before it.
pub open spec fn spec_line(s: Seq<char>, pos: int) -> int
    decreases pos,
{
    if pos <= 0 {
        1
    } else {
        spec_line(s, pos - 1) + if s[pos - 1] == '\n' {
            1int
        } else {
            0int
        }
    }
}

/// The 1-based column of a position: the characters since the line started,
/// plus one.
pub open spec fn spec_col(s: Seq<char>, pos: int) -> int
    decreases pos,
{
    if pos <= 0 {
        1
    } else if s[pos - 1] == '\n' {
        1
    } else {
        spec_col(s, pos - 1) + 1
    }
}

proof fn lemma_line_col_bounds(s: Seq<char>, pos: int)
    requires
        pos >= 0,
    ensures
        1 <= spec_line(s, pos) <= pos + 1,
        1 <= spec_col(s, pos) <= pos + 1,
    decreases pos,
{
    if pos > 0 {
        lemma_line_col_bounds(s, pos - 1);
    }
}

/// The line and column of a position in the source.
pub fn line_col(s: &Vec<char>, pos: usize) -> (r: (u64, u64))
    requires
        pos <= s@.len(),
        s@.len() <= u64::MAX - 1,
    ensures
        r.0 == spec_line(s@, pos as int),
        r.1 == spec_col(s@, pos as int),
{
    let mut line: u64 = 1;
    let mut col: u64 = 1;
    let mut i: usize = 0;
    while i < pos
        invariant
            i <= pos <= s@.len() <= u64::MAX - 1,
            line == spec_line(s@, i as int),
            col == spec_col(s@, i as int),
        decreases pos - i,
    {
        proof {
            lemma_line_col_bounds(s@, i as int);
        }
        if s[i] == '\n' {
            line = line + 1;
            col = 1;
        } else {
            col = col + 1;
        }
        i = i + 1;
    }
    (line, col)
}

/// The diagnostic for a missing token: its position and what was expected.
pub fn expected_token_message(line: u64, col: u64, token: &str) -> (r: String)
    ensures
        r@ == dec_digits(line as nat) + ":"@ + dec_digits(col as nat) + ": Expected "@ + token@,
{
    let mut out = u64_to_string(line);
    out.append(":");
    let col_digits = u64_to_string(col);
    out.append(col_digits.as_str());
    out.append(": Expected ");
    out.append(token);
    proof {
        assert(out@ =~= dec_digits(line as nat) + ":"@ + dec_digits(col as nat) + ": Expected "@
            + token@);
    }
    out
}

proof fn lemma_msgs_prefix_trans(a: Seq<Seq<char>>, b: Seq<Seq<char>>, c: Seq<Seq<char>>)
    requires
        a.is_prefix_of(b),
        b.is_prefix_of(c),
    ensures
        a.is_prefix_of(c),
{
    assert(a =~= c.subrange(0, a.len() as int));
}

/// Structural fitness of binding values depends only on the first `n`
/// entries, so it survives appending more.
proof fn lemma_wf_defines_grow(d1: Vec<Binding>, d2: Vec<Binding>, n: int)
    requires
        0 <= n <= d1@.len(),
        n <= d2@.len(),
        forall|k: int| 0 <= k < n ==> d1@[k] == d2@[k],
        wf_defines(d1, n),
    ensures
        wf_defines(d2, n),
    decreases n,
{
    if n > 0 {
        lemma_wf_defines_grow(d1, d2, n - 1);
    }
}

/// A binding-list match over the first `n` entries survives appending more
/// entries on both sides.
proof fn lemma_defines_match_grow(
    d1: Vec<Binding>,
    d2: Vec<Binding>,
    m1: Seq<(Seq<char>, SpecExpr)>,
    m2: Seq<(Seq<char>, SpecExpr)>,
    n: int,
)
    requires
        0 <= n <= d1@.len(),
        n <= d2@.len(),
        n <= m1.len(),
        n <= m2.len(),
        forall|k: int| 0 <= k < n ==> d1@[k] == d2@[k],
        forall|k: int| 0 <= k < n ==> m1[k] == m2[k],
        defines_match(d1, m1, n),
    ensures
        defines_match(d2, m2, n),
    decreases n,
{
    if n > 0 {
        lemma_defines_match_grow(d1, d2, m1, m2, n - 1);
    }
}

/// A function-list match over the first `n` entries survives appending
/// more entries on both sides.
proof fn lemma_functions_match_grow(
    d1: Vec<Function>,
    d2: Vec<Function>,
    m1: Seq<(Seq<char>, SpecExpr)>,
    m2: Seq<(Seq<char>, SpecExpr)>,
    n: int,
)
    requires
        0 <= n <= d1@.len(),
        n <= d2@.len(),
        n <= m1.len(),
        n <= m2.len(),
        forall|k: int| 0 <= k < n ==> d1@[k] == d2@[k],
        forall|k: int| 0 <= k < n ==> m1[k] == m2[k],
        functions_match(d1, m1, n),
    ensures
        functions_match(d2, m2, n),
    decreases n,
{
    if n > 0 {
        lemma_functions_match_grow(d1, d2, m1, m2, n - 1);
    }
}

/// Structural fitness of function bodies depends only on the first `n`
/// entries, so it survives appending more.
proof fn lemma_wf_functions_grow(d1: Vec<Function>, d2: Vec<Function>, n: int)
    requires
        0 <= n <= d1@.len(),
        n <= d2@.len(),
        forall|k: int| 0 <= k < n ==> d1@[k] == d2@[k],
        wf_functions(d1, n),
    ensures
        wf_functions(d2, n),
    decreases n,
{
    if n > 0 {
        lemma_wf_functions_grow(d1, d2, n - 1);
    }
}

// ---------------------------------------------------------------------------
// Tokens
// ---------------------------------------------------------------------------

/// Whether the next significant character at `pos` is `c`.
pub open spec fn symbol_matches(s: Seq<char>, pos: int, c: char) -> bool {
    let q = spec_skip_ws(s, pos);
    q < s.len() && s[q] == c
}

/// Matches one literal character, with whitespace allowed on both sides.
pub fn symbol(s: &Vec<char>, pos: usize, c: char) -> (r: Option<usize>)
    requires
        pos <= s@.len(),
    ensures
        r is Some <==> symbol_matches(s@, pos as int, c),
        r matches Some(p) ==> pos < p <= s@.len() && p == spec_skip_ws(
            s@,
            spec_skip_ws(s@, pos as int) + 1,
        ),
    decreases s@.len() - pos,
{
    let p = skip_ws(s, pos);
    if p < s.len() && s[p] == c {
        Some(skip_ws(s, p + 1))
    } else {
        None
    }
}

pub fn left_curly(s: &Vec<char>, pos: usize) -> (r: Option<usize>)
    requires
        pos <= s@.len(),
    ensures
        r is Some <==> symbol_matches(s@, pos as int, '{'),
        r matches Some(p) ==> pos < p <= s@.len() && p == spec_skip_ws(
            s@,
            spec_skip_ws(s@, pos as int) + 1,
        ),
{
    symbol(s, pos, '{')
}

pub fn right_curly(s: &Vec<char>, pos: usize) -> (r: Option<usize>)
    requires
        pos <= s@.len(),
    ensures
        r is Some <==> symbol_matches(s@, pos as int, '}'),
        r matches Some(p) ==> pos < p <= s@.len() && p == spec_skip_ws(
            s@,
            spec_skip_ws(s@, pos as int) + 1,
        ),
{
    symbol(s, pos, '}')
}

pub fn left_par(s: &Vec<char>, pos: usize) -> (r: Option<usize>)
    requires
        pos <= s@.len(),
    ensures
        r is Some <==> symbol_matches(s@, pos as int, '('),
        r matches Some(p) ==> pos < p <= s@.len() && p == spec_skip_ws(
            s@,
            spec_skip_ws(s@, pos as int) + 1,
        ),
{
    symbol(s, pos, '(')
}

pub fn right_par(s: &Vec<char>, pos: usize) -> (r: Option<usize>)
    requires
        pos <= s@.len(),
    ensures
        r is Some <==> symbol_matches(s@, pos as int, ')'),
        r matches Some(p) ==> pos < p <= s@.len() && p == spec_skip_ws(
            s@,
            spec_skip_ws(s@, pos as int) + 1,
        ),
{
    symbol(s, pos, ')')
}

pub fn equal(s: &Vec<char>, pos: usize) -> (r: Option<usize>)
    requires
        pos <= s@.len(),
    ensures
        r is Some <==> symbol_matches(s@, pos as int, '='),
        r matches Some(p) ==> pos < p <= s@.len() && p == spec_skip_ws(
            s@,
            spec_skip_ws(s@, pos as int) + 1,
        ),
{
    symbol(s, pos, '=')
}

pub fn semicolon(s: &Vec<char>, pos: usize) -> (r: Option<usize>)
    requires
        pos <= s@.len(),
    ensures
        r is Some <==> symbol_matches(s@, pos as int, ';'),
        r matches Some(p) ==> pos < p <= s@.len() && p == spec_skip_ws(
            s@,
            spec_skip_ws(s@, pos as int) + 1,
        ),
{
    symbol(s, pos, ';')
}

pub fn star(s: &Vec<char>, pos: usize) -> (r: Option<usize>)
    requires
        pos <= s@.len(),
    ensures
        r is Some <==> symbol_matches(s@, pos as int, '*'),
        r matches Some(p) ==> pos < p <= s@.len() && p == spec_skip_ws(
            s@,
            spec_skip_ws(s@, pos as int) + 1,
        ),
{
    symbol(s, pos, '*')
}

/// Whether the keyword `kw` stands at `pos`, after whitespace and not
/// directly followed by a letter.
pub open spec fn keyword_matches(s: Seq<char>, pos: int, kw: Seq<char>) -> bool {
    let q = spec_skip_ws(s, pos);
    &&& 1 <= kw.len()
    &&& q + kw.len() <= s.len()
    &&& s.subrange(q, q + kw.len()) == kw
    &&& (q + kw.len() < s.len() ==> !spec_is_letter(s[q + kw.len()]))
}

/// Matches a keyword: leading whitespace, the keyword's characters, no
/// letter directly after (so `let` does not match the start of `letx`),
/// trailing whitespace.  Only a letter blocks the match: a digit or an
/// underscore may follow, so `if42` reads as the keyword `if` before the
/// literal `42`.
pub fn keyword(s: &Vec<char>, pos: usize, kw: &str) -> (r: Option<usize>)
    requires
        pos <= s@.len(),
        kw@.len() >= 1,
    ensures
        r is Some <==> keyword_matches(s@, pos as int, kw@),
        r matches Some(p) ==> pos < p <= s@.len() && p == spec_skip_ws(
            s@,
            spec_skip_ws(s@, pos as int) + kw@.len(),
        ),
{
    let p = skip_ws(s, pos);
    let n = kw.unicode_len();
    if n > s.len() - p {
        proof {
            assert(!keyword_matches(s@, pos as int, kw@));
        }
        return None;
    }
    let mut i: usize = 0;
    while i < n
        invariant
            i <= n,
            n == kw@.len(),
            p == spec_skip_ws(s@, pos as int),
            pos <= p,
            p + n <= s@.len(),
            p <= s@.len(),
            s@.len() <= usize::MAX,
            forall|j: int| 0 <= j < i ==> s@[p + j] == kw@[j],
        decreases n - i,
    {
        if s[p + i] != kw.get_char(i) {
            proof {
                assert(s@.subrange(p as int, p + n) != kw@) by {
                    assert(s@.subrange(p as int, p + n)[i as int] == s@[p + i]);
                }
            }
            return None;
        }
        i = i + 1;
    }
    if p + n < s.len() && is_letter_exec(s[p + n]) {
        return None;
    }
    proof {
        assert(s@.subrange(p as int, p + n) =~= kw@);
    }
    Some(skip_ws(s, p + n))
}

pub fn if_(s: &Vec<char>, pos: usize) -> (r: Option<usize>)
    requires
        pos <= s@.len(),
    ensures
        r is Some <==> keyword_matches(s@, pos as int, "if"@),
        r matches Some(p) ==> pos < p <= s@.len() && p == spec_skip_ws(
            s@,
            spec_skip_ws(s@, pos as int) + "if"@.len(),
        ),
{
    proof {
        reveal_strlit("if");
    }
    keyword(s, pos, "if")
}

pub fn else_(s: &Vec<char>, pos: usize) -> (r: Option<usize>)
    requires
        pos <= s@.len(),
    ensures
        r is Some <==> keyword_matches(s@, pos as int, "else"@),
        r matches Some(p) ==> pos < p <= s@.len() && p == spec_skip_ws(
            s@,
            spec_skip_ws(s@, pos as int) + "else"@.len(),
        ),
{
    proof {
        reveal_strlit("else");
    }
    keyword(s, pos, "else")
}

pub fn let_(s: &Vec<char>, pos: usize) -> (r: Option<usize>)
    requires
        pos <= s@.len(),
    ensures
        r is Some <==> keyword_matches(s@, pos as int, "let"@),
        r matches Some(p) ==> pos < p <= s@.len() && p == spec_skip_ws(
            s@,
            spec_skip_ws(s@, pos as int) + "let"@.len(),
        ),
{
    proof {
        reveal_strlit("let");
    }
    keyword(s, pos, "let")
}

pub fn true_(s: &Vec<char>, pos: usize) -> (r: Option<usize>)
    requires
        pos <= s@.len(),
    ensures
        r is Some <==> keyword_matches(s@, pos as int, "true"@),
        r matches Some(p) ==> pos < p <= s@.len() && p == spec_skip_ws(
            s@,
            spec_skip_ws(s@, pos as int) + "true"@.len(),
        ),
{
    proof {
        reveal_strlit("true");
    }
    keyword(s, pos, "true")
}

pub fn false_(s: &Vec<char>, pos: usize) -> (r: Option<usize>)
    requires
        pos <= s@.len(),
    ensures
        r is Some <==> keyword_matches(s@, pos as int, "false"@),
        r matches Some(p) ==> pos < p <= s@.len() && p == spec_skip_ws(
            s@,
            spec_skip_ws(s@, pos as int) + "false"@.len(),
        ),
{
    proof {
        reveal_strlit("false");
    }
    keyword(s, pos, "false")
}

pub fn fn_(s: &Vec<char>, pos: usize) -> (r: Option<usize>)
    requires
        pos <= s@.len(),
    ensures
        r is Some <==> keyword_matches(s@, pos as int, "fn"@),
        r matches Some(p) ==> pos < p <= s@.len() && p == spec_skip_ws(
            s@,
            spec_skip_ws(s@, pos as int) + "fn"@.len(),
        ),
{
    proof {
        reveal_strlit("fn");
    }
    keyword(s, pos, "fn")
}

/// Whether an identifier starts at `pos`, after whitespace: a letter or an
/// underscore.
pub open spec fn ident_matches(s: Seq<char>, pos: int) -> bool {
    let q = spec_skip_ws(s, pos);
    q < s.len() && (spec_is_letter(s[q]) || s[q] == '_')
}

/// Parses an identifier: a letter or underscore, then letters, digits and
/// underscores, with whitespace allowed on both sides.
pub fn ident(s: &Vec<char>, pos: usize) -> (r: Option<(String, usize)>)
    requires
        pos <= s@.len(),
    ensures
        r is Some <==> ident_matches(s@, pos as int),
        r matches Some((name, p)) ==> {
            let q = spec_skip_ws(s@, pos as int);
            let e = spec_ident_end(s@, q);
            &&& pos < p <= s@.len()
            &&& name@ == s@.subrange(q, e)
            &&& name@.len() >= 1
            &&& p == spec_skip_ws(s@, e)
        },
    decreases s@.len() - pos,
{
    let p = skip_ws(s, pos);
    if p >= s.len() || !is_ident_start(s[p]) {
        return None;
    }
    let mut name = String::new();
    let mut q = p;
    while q < s.len() && is_ident_char(s[q])
        invariant
            p <= q <= s@.len(),
            name@ =~= s@.subrange(p as int, q as int),
            spec_ident_end(s@, p as int) == spec_ident_end(s@, q as int),
        decreases s@.len() - q,
    {
        string_push_char(&mut name, s[q]);
        proof {
            assert(name@ =~= s@.subrange(p as int, q + 1));
        }
        q = q + 1;
    }
    if q == p {
        return None;
    }
    Some((name, skip_ws(s, q)))
}

/// The numeric value of the digits in `from .. to`, read in base ten.
pub open spec fn spec_digits_value(s: Seq<char>, from: int, to: int) -> int
    decreases to - from,
{
    if to <= from {
        0
    } else {
        spec_digits_value(s, from, to - 1) * 10 + ((s[to - 1] as u32) as int - 48)
    }
}

/// The position where an integer literal's digits start: directly after an
/// optional minus sign.
pub open spec fn spec_integer_digits_start(s: Seq<char>, pos: int) -> int {
    let q = spec_skip_ws(s, pos);
    if q < s.len() && s[q] == '-' {
        q + 1
    } else {
        q
    }
}

/// Whether an integer literal starts at `pos`: an optional minus sign
/// directly followed by at least one digit.
pub open spec fn integer_matches(s: Seq<char>, pos: int) -> bool {
    let d = spec_integer_digits_start(s, pos);
    d < s.len() && spec_is_digit(s[d])
}

/// The signed value of the integer literal at `pos`.
pub open spec fn spec_integer_value(s: Seq<char>, pos: int) -> int {
    let q = spec_skip_ws(s, pos);
    let d = spec_integer_digits_start(s, pos);
    let magnitude = spec_digits_value(s, d, spec_digits_end(s, d));
    if q < s.len() && s[q] == '-' {
        -magnitude
    } else {
        magnitude
    }
}

/// A longer digit run never has a smaller value; one more digit past a
/// value above the cap keeps it above the cap.
proof fn lemma_digits_value_grows(s: Seq<char>, from: int, to: int, bound: int)
    requires
        from <= to,
        spec_digits_value(s, from, to) > bound >= 0,
        forall|j: int| from <= j < to ==> spec_is_digit(#[trigger] s[j]),
    ensures
        forall|t2: int|
            to <= t2 && (forall|j: int| from <= j < t2 ==> spec_is_digit(#[trigger] s[j]))
                ==> spec_digits_value(s, from, t2) > bound,
{
    assert forall|t2: int|
        to <= t2 && (forall|j: int| from <= j < t2 ==> spec_is_digit(#[trigger] s[j]))
            implies spec_digits_value(s, from, t2) > bound by {
        lemma_digits_value_grows_to(s, from, to, t2, bound);
    }
}

proof fn lemma_digits_value_grows_to(s: Seq<char>, from: int, to: int, t2: int, bound: int)
    requires
        from <= to <= t2,
        spec_digits_value(s, from, to) > bound >= 0,
        forall|j: int| from <= j < t2 ==> spec_is_digit(#[trigger] s[j]),
    ensures
        spec_digits_value(s, from, t2) > bound,
    decreases t2 - to,
{
    if to < t2 {
        assert(spec_is_digit(s[t2 - 1]));
        assert((s[t2 - 1] as u32) as int - 48 >= 0) by {
            assert('0' <= s[t2 - 1]);
        }
        lemma_digits_value_grows_to(s, from, to, t2 - 1, bound);
    }
}

/// Parses a signed integer literal: an optional minus sign and one or more
/// digits, with whitespace allowed on both sides.  A literal outside the
/// range of `i32` does not parse.
pub fn integer(s: &Vec<char>, pos: usize) -> (r: Option<(ExprKind, usize)>)
    requires
        pos <= s@.len(),
    ensures
        r is Some <==> (integer_matches(s@, pos as int) && i32::MIN <= spec_integer_value(
            s@,
            pos as int,
        ) <= i32::MAX),
        r matches Some((e, p)) ==> {
            &&& pos < p <= s@.len()
            &&& e matches ExprKind::Integer(lit) && lit.0 == spec_integer_value(s@, pos as int)
            &&& p == spec_skip_ws(
                s@,
                spec_digits_end(s@, spec_integer_digits_start(s@, pos as int)),
            )
        },
    decreases s@.len() - pos,
{
    let p = skip_ws(s, pos);
    let (negative, digits_start) = if p < s.len() && s[p] == '-' {
        (true, p + 1)
    } else {
        (false, p)
    };
    proof {
        assert(digits_start == spec_integer_digits_start(s@, pos as int));
    }
    let mut q = digits_start;
    let mut magnitude: u64 = 0;
    let mut too_large = false;
    while q < s.len() && is_digit_exec(s[q])
        invariant
            digits_start <= q <= s@.len(),
            magnitude <= 0x8000_0000,
            forall|j: int| digits_start <= j < q ==> spec_is_digit(#[trigger] s@[j]),
            spec_digits_end(s@, digits_start as int) == spec_digits_end(s@, q as int),
            !too_large ==> magnitude == spec_digits_value(s@, digits_start as int, q as int),
            too_large ==> spec_digits_value(s@, digits_start as int, q as int) > 0x8000_0000,
        decreases s@.len() - q,
    {
        let d: u64 = (s[q] as u32 as u64) - 48;
        proof {
            assert(spec_is_digit(s@[q as int]));
            assert(d <= 9) by {
                assert('0' <= s@[q as int] && s@[q as int] <= '9');
            }
            assert(spec_digits_value(s@, digits_start as int, q + 1) == spec_digits_value(
                s@,
                digits_start as int,
                q as int,
            ) * 10 + d);
        }
        if too_large || magnitude > 0x0CCC_CCCC {
            proof {
                if !too_large {
                    assert(spec_digits_value(s@, digits_start as int, q + 1) > 0x8000_0000);
                }
            }
            too_large = true;
            magnitude = 0x8000_0000;
        } else {
            magnitude = magnitude * 10 + d;
            if magnitude > 0x8000_0000 {
                too_large = true;
                magnitude = 0x8000_0000;
            }
        }
        q = q + 1;
    }
    if q == digits_start {
        return None;
    }
    proof {
        if too_large {
            lemma_digits_value_grows(
                s@,
                digits_start as int,
                q as int,
                0x8000_0000,
            );
        }
    }
    let value: i32 = if negative {
        if too_large || magnitude > 0x8000_0000 {
            return None;
        }
        if magnitude == 0x8000_0000 {
            i32::MIN
        } else {
            -((magnitude as u32) as i32)
        }
    } else {
        if too_large || magnitude > 0x7FFF_FFFF {
            return None;
        }
        magnitude as i32
    };
    Some((ExprKind::integer(value), skip_ws(s, q)))
}

/// Parses `true` or `false`.
pub fn bool_expr(s: &Vec<char>, pos: usize) -> (r: Option<(ExprKind, usize)>)
    requires
        pos <= s@.len(),
    ensures
        r is Some <==> (keyword_matches(s@, pos as int, "true"@) || keyword_matches(
            s@,
            pos as int,
            "false"@,
        )),
        r matches Some((e, p)) ==> pos < p <= s@.len() && e == ExprKind::Bool(
            crate::ast::Bool(keyword_matches(s@, pos as int, "true"@)),
        ) && p == spec_skip_ws(
            s@,
            spec_skip_ws(s@, pos as int) + (if keyword_matches(s@, pos as int, "true"@) {
                "true"@.len()
            } else {
                "false"@.len()
            }),
        ),
{
    match true_expr(s, pos) {
        Some(t) => Some(t),
        None => false_expr(s, pos),
    }
}

/// Parses `true`.
pub fn true_expr(s: &Vec<char>, pos: usize) -> (r: Option<(ExprKind, usize)>)
    requires
        pos <= s@.len(),
    ensures
        r is Some <==> keyword_matches(s@, pos as int, "true"@),
        r matches Some((e, p)) ==> pos < p <= s@.len() && e == ExprKind::Bool(
            crate::ast::Bool(true),
        ) && p == spec_skip_ws(s@, spec_skip_ws(s@, pos as int) + "true"@.len()),
{
    match true_(s, pos) {
        Some(p) => Some((ExprKind::bool_(true), p)),
        None => None,
    }
}

/// Parses `false`.
pub fn false_expr(s: &Vec<char>, pos: usize) -> (r: Option<(ExprKind, usize)>)
    requires
        pos <= s@.len(),
    ensures
        r is Some <==> keyword_matches(s@, pos as int, "false"@),
        r matches Some((e, p)) ==> pos < p <= s@.len() && e == ExprKind::Bool(
            crate::ast::Bool(false),
        ) && p == spec_skip_ws(s@, spec_skip_ws(s@, pos as int) + "false"@.len()),
{
    match false_(s, pos) {
        Some(p) => Some((ExprKind::bool_(false), p)),
        None => None,
    }
}

/// Parses a variable reference.
pub fn ident_expr(s: &Vec<char>, pos: usize) -> (r: Option<(ExprKind, usize)>)
    requires
        pos <= s@.len(),
    ensures
        r is Some <==> ident_matches(s@, pos as int),
        r matches Some((e, p)) ==> {
            let q = spec_skip_ws(s@, pos as int);
            &&& pos < p <= s@.len()
            &&& e matches ExprKind::Ident(id) && id.0@ == s@.subrange(
                q,
                spec_ident_end(s@, q),
            )
            &&& p == spec_skip_ws(s@, spec_ident_end(s@, q))
        },
{
    match ident(s, pos) {
        Some((name, p)) => Some((ExprKind::ident(name), p)),
        None => None,
    }
}

/// An additive operator.
#[derive(Copy, Clone, Debug, PartialEq, Eq, Structural)]
pub enum Level0Operator {
    Plus,
    Minus,
}

impl Level0Operator {
    /// The expression this operator builds from two operands.
    pub fn make_expr(self, lhs: ExprKind, rhs: ExprKind) -> (r: ExprKind)
        ensures
            self == Level0Operator::Plus ==> (r matches ExprKind::Addition(a) && *a.lhs == lhs
                && *a.rhs == rhs),
            self == Level0Operator::Minus ==> (r matches ExprKind::Subtraction(m) && *m.lhs == lhs
                && *m.rhs == rhs),
    {
        match self {
            Level0Operator::Plus => ExprKind::addition(lhs, rhs),
            Level0Operator::Minus => ExprKind::subtraction(lhs, rhs),
        }
    }
}

/// Parses `+` or `-`, with no whitespace handling of its own.
pub fn level_0_operator(s: &Vec<char>, pos: usize) -> (r: Option<(Level0Operator, usize)>)
    requires
        pos <= s@.len(),
    ensures
        r is Some <==> t_level_0_operator(s@, pos as int) is Some,
        r matches Some((op, p)) ==> pos < p <= s@.len() && (t_level_0_operator(
            s@,
            pos as int,
        ) matches Some((minus, mp)) && (op is Minus <==> minus) && p == mp),
{
    if pos < s.len() && s[pos] == '+' {
        Some((Level0Operator::Plus, pos + 1))
    } else if pos < s.len() && s[pos] == '-' {
        Some((Level0Operator::Minus, pos + 1))
    } else {
        None
    }
}

// ---------------------------------------------------------------------------
// The grammar, as mathematical functions
// ---------------------------------------------------------------------------

/// The tree a grammar production yields, in specification form: names are
/// character sequences and binding lists are sequences.
pub enum SpecExpr {
    Integer(i32),
    Boolean(bool),
    Variable(Seq<char>),
    Add(Box<SpecExpr>, Box<SpecExpr>),
    Sub(Box<SpecExpr>, Box<SpecExpr>),
    Mul(Box<SpecExpr>, Box<SpecExpr>),
    Cond(Box<SpecExpr>, Box<SpecExpr>, Box<SpecExpr>),
    Lets(Seq<(Seq<char>, SpecExpr)>, Box<SpecExpr>),
}

/// Whether a syntax tree is the one a specification tree describes.
pub open spec fn expr_matches(e: ExprKind, m: SpecExpr) -> bool
    decreases e, 1int,
{
    match e {
        ExprKind::Integer(i) => m matches SpecExpr::Integer(v) && i.0 == v,
        ExprKind::Bool(b) => m matches SpecExpr::Boolean(v) && b.0 == v,
        ExprKind::Ident(n) => m matches SpecExpr::Variable(s) && n.0@ == s,
        ExprKind::Addition(a) => m matches SpecExpr::Add(l, r) && expr_matches(*a.lhs, *l)
            && expr_matches(*a.rhs, *r),
        ExprKind::Subtraction(sb) => m matches SpecExpr::Sub(l, r) && expr_matches(*sb.lhs, *l)
            && expr_matches(*sb.rhs, *r),
        ExprKind::Multiplication(mu) => m matches SpecExpr::Mul(l, r) && expr_matches(
            *mu.lhs,
            *l,
        ) && expr_matches(*mu.rhs, *r),
        ExprKind::If(i) => m matches SpecExpr::Cond(c, t, f) && expr_matches(*i.condition, *c)
            && expr_matches(*i.consequent, *t) && expr_matches(*i.alternative, *f),
        ExprKind::Bindings(b) => m matches SpecExpr::Lets(ds, end) && b.defines@.len()
            == ds.len() && defines_match(b.defines, ds, b.defines@.len() as int)
            && expr_matches(*b.ending, *end),
    }
}

/// Whether the first `n` bindings are the ones described.
pub open spec fn defines_match(
    defines: Vec<Binding>,
    ds: Seq<(Seq<char>, SpecExpr)>,
    n: int,
) -> bool
    decreases defines, n,
{
    if n <= 0 || n > defines@.len() {
        true
    } else {
        &&& defines_match(defines, ds, n - 1)
        &&& defines[n - 1].name@ == ds[n - 1].0
        &&& expr_matches(defines[n - 1].value, ds[n - 1].1)
    }
}

/// Whether a parsed function is the one described.
pub open spec fn function_matches(f: Function, m: (Seq<char>, SpecExpr)) -> bool {
    f.name@ == m.0 && expr_matches(f.body, m.1)
}

/// Whether the first `n` parsed functions are the ones described.
pub open spec fn functions_match(
    functions: Vec<Function>,
    ms: Seq<(Seq<char>, SpecExpr)>,
    n: int,
) -> bool
    decreases n,
{
    if n <= 0 || n > functions@.len() {
        true
    } else {
        functions_match(functions, ms, n - 1) && function_matches(
            functions@[n - 1],
            ms[n - 1],
        )
    }
}

/// Whether a parsed program is the one described.
pub open spec fn program_matches(p: Program, ms: Seq<(Seq<char>, SpecExpr)>) -> bool {
    p.functions@.len() == ms.len() && functions_match(
        p.functions,
        ms,
        p.functions@.len() as int,
    )
}

/// The next position, forced to make progress and stay inside the input;
/// on every reachable path the position already does both, so this is the
/// identity there.
pub open spec fn step_to(s: Seq<char>, p: int, lo: int) -> int {
    if lo < p <= s.len() {
        p
    } else {
        lo + 1
    }
}

/// Where the keyword `kw` at `pos` ends, when it matches.
pub open spec fn t_keyword(s: Seq<char>, pos: int, kw: Seq<char>) -> Option<int> {
    if keyword_matches(s, pos, kw) {
        Some(spec_skip_ws(s, spec_skip_ws(s, pos) + kw.len()))
    } else {
        None
    }
}

/// Where the symbol `c` at `pos` ends, when it matches.
pub open spec fn t_symbol(s: Seq<char>, pos: int, c: char) -> Option<int> {
    if symbol_matches(s, pos, c) {
        Some(spec_skip_ws(s, spec_skip_ws(s, pos) + 1))
    } else {
        None
    }
}

/// The identifier at `pos` and where it ends, when one starts there.
pub open spec fn t_ident(s: Seq<char>, pos: int) -> Option<(Seq<char>, int)> {
    if ident_matches(s, pos) {
        let q = spec_skip_ws(s, pos);
        let e = spec_ident_end(s, q);
        Some((s.subrange(q, e), spec_skip_ws(s, e)))
    } else {
        None
    }
}

/// The integer literal at `pos` and where it ends, when one in `i32` range
/// starts there.
pub open spec fn t_integer(s: Seq<char>, pos: int) -> Option<(i32, int)> {
    if integer_matches(s, pos) && i32::MIN <= spec_integer_value(s, pos) <= i32::MAX {
        Some(
            (
                spec_integer_value(s, pos) as i32,
                spec_skip_ws(s, spec_digits_end(s, spec_integer_digits_start(s, pos))),
            ),
        )
    } else {
        None
    }
}

/// The additive operator at `pos`, when one stands there: true for minus.
pub open spec fn t_level_0_operator(s: Seq<char>, pos: int) -> Option<(bool, int)> {
    if 0 <= pos < s.len() && s[pos] == '+' {
        Some((false, pos + 1))
    } else if 0 <= pos < s.len() && s[pos] == '-' {
        Some((true, pos + 1))
    } else {
        None
    }
}

/// The atomic production: an integer literal, a conditional, a block, a
/// boolean literal or a variable, tried in that order.  Every production
/// returns its tree and end position when it matches, together with the
/// number of recovery diagnostics the attempt records.
pub open spec fn p_atomic(s: Seq<char>, pos: int) -> (Option<(SpecExpr, int)>, int)
    decreases s.len() - pos, 4int,
{
    if pos < 0 || pos >= s.len() {
        (None, 0)
    } else {
        if t_integer(s, pos) is Some {
            let (v, p) = t_integer(s, pos).unwrap();
            (Some((SpecExpr::Integer(v), p)), 0)
        } else {
            let (r1, d1) = p_if_else(s, pos);
            if r1 is Some {
                (r1, d1)
            } else {
                let (r2, d2) = p_block(s, pos);
                if r2 is Some {
                    (r2, d1 + d2)
                } else if t_keyword(s, pos, "true"@) is Some {
                    (Some((SpecExpr::Boolean(true), t_keyword(s, pos, "true"@).unwrap())), d1 + d2)
                } else if t_keyword(s, pos, "false"@) is Some {
                    (
                        Some((SpecExpr::Boolean(false), t_keyword(s, pos, "false"@).unwrap())),
                        d1 + d2,
                    )
                } else if t_ident(s, pos) is Some {
                    let (name, p) = t_ident(s, pos).unwrap();
                    (Some((SpecExpr::Variable(name), p)), d1 + d2)
                } else {
                    (None, d1 + d2)
                }
            }
        }
    }
}

/// The conditional production: `if`, a condition, a block, `else`, a block.
pub open spec fn p_if_else(s: Seq<char>, pos: int) -> (Option<(SpecExpr, int)>, int)
    decreases s.len() - pos, 1int,
{
    if pos < 0 || pos >= s.len() {
        (None, 0)
    } else {
        match t_keyword(s, pos, "if"@) {
            None => (None, 0),
            Some(p0) => {
                let (rc, d1) = p_expr(s, step_to(s, p0, pos));
                match rc {
                    None => (None, d1),
                    Some((cond, p1)) => {
                        let (rt, d2) = p_block(s, step_to(s, p1, pos));
                        match rt {
                            None => (None, d1 + d2),
                            Some((cons, p2)) => match t_keyword(s, p2, "else"@) {
                                None => (None, d1 + d2),
                                Some(p3) => {
                                    let (rf, d3) = p_block(s, step_to(s, p3, pos));
                                    match rf {
                                        None => (None, d1 + d2 + d3),
                                        Some((alt, p4)) => (
                                            Some(
                                                (
                                                    SpecExpr::Cond(
                                                        Box::new(cond),
                                                        Box::new(cons),
                                                        Box::new(alt),
                                                    ),
                                                    p4,
                                                ),
                                            ),
                                            d1 + d2 + d3,
                                        ),
                                    }
                                },
                            },
                        }
                    },
                }
            },
        }
    }
}

/// The block production: `{`, bindings or a bare expression, `}`.
pub open spec fn p_block(s: Seq<char>, pos: int) -> (Option<(SpecExpr, int)>, int)
    decreases s.len() - pos, 1int,
{
    if pos < 0 || pos >= s.len() {
        (None, 0)
    } else {
        if s.len() > usize::MAX - 1 {
            (None, 0)
        } else {
            match t_symbol(s, pos, '{') {
                None => (None, 0),
                Some(p0) => {
                    let (rb, d1) = p_bindings(s, step_to(s, p0, pos));
                    let (inner, d) = if rb is Some {
                        (rb, d1)
                    } else {
                        let (re, d2) = p_expr(s, step_to(s, p0, pos));
                        (re, d1 + d2)
                    };
                    match inner {
                        None => (None, d),
                        Some((e, p1)) => match t_symbol(s, p1, '}') {
                            None => (None, d),
                            Some(p2) => (Some((e, p2)), d),
                        },
                    }
                },
            }
        }
    }
}

/// The binding production: `let NAME = VALUE;`, recovering (one diagnostic
/// each) when the `=` or the `;` is missing.
pub open spec fn p_binding(s: Seq<char>, pos: int) -> (Option<((Seq<char>, SpecExpr), int)>, int)
    decreases s.len() - pos, 1int,
{
    if pos < 0 || pos >= s.len() {
        (None, 0)
    } else {
        match t_keyword(s, pos, "let"@) {
            None => (None, 0),
            Some(p0) => match t_ident(s, step_to(s, p0, pos)) {
                None => (None, 0),
                Some((name, p1)) => {
                    let (p2, d1) = match t_symbol(s, p1, '=') {
                        Some(p) => (p, 0int),
                        None => (p1, 1int),
                    };
                    let (rv, d2) = p_expr(s, step_to(s, p2, pos));
                    match rv {
                        None => (None, d1 + d2),
                        Some((value, p3)) => {
                            let (p4, d3) = match t_symbol(s, p3, ';') {
                                Some(p) => (p, 0int),
                                None => (p3, 1int),
                            };
                            (Some(((name, value), p4)), d1 + d2 + d3)
                        },
                    }
                },
            },
        }
    }
}

/// The tail of a binding list: further bindings while they parse.
pub open spec fn p_lets_more(
    s: Seq<char>,
    pos: int,
    acc: Seq<(Seq<char>, SpecExpr)>,
) -> (Seq<(Seq<char>, SpecExpr)>, int, int)
    decreases s.len() - pos, 2int,
{
    if pos < 0 || pos >= s.len() {
        (acc, pos, 0)
    } else {
        let (rb, d) = p_binding(s, pos);
        match rb {
            None => (acc, pos, d),
            Some((b, p2)) => if pos < p2 <= s.len() {
                let (acc2, e, d2) = p_lets_more(s, p2, acc.push(b));
                (acc2, e, d + d2)
            } else {
                (acc, pos, d)
            },
        }
    }
}

/// The bindings production: one or more bindings, then the ending
/// expression; a list longer than a `pop_copy` operand does not parse.
pub open spec fn p_bindings(s: Seq<char>, pos: int) -> (Option<(SpecExpr, int)>, int)
    decreases s.len() - pos, 3int,
{
    if pos < 0 || pos >= s.len() {
        (None, 0)
    } else {
        let (rb, d1) = p_binding(s, pos);
        match rb {
            None => (None, d1),
            Some((first, p1)) => {
                let (bs, p2, d2) = p_lets_more(s, step_to(s, p1, pos), seq![first]);
                if bs.len() > u16::MAX {
                    (None, d1 + d2)
                } else {
                    let (re, d3) = p_expr(s, step_to(s, p2, pos));
                    match re {
                        None => (None, d1 + d2 + d3),
                        Some((ending, p3)) => (
                            Some((SpecExpr::Lets(bs, Box::new(ending)), p3)),
                            d1 + d2 + d3,
                        ),
                    }
                }
            },
        }
    }
}

/// The tail of a multiplicative chain: further `* atom` pairs while they
/// parse, folded into a left spine.
pub open spec fn p_mul_more(s: Seq<char>, pos: int, acc: SpecExpr) -> (SpecExpr, int, int)
    decreases s.len() - pos, 5int,
{
    if pos < 0 || pos >= s.len() {
        (acc, pos, 0)
    } else {
        match t_symbol(s, pos, '*') {
            None => (acc, pos, 0),
            Some(q) => {
                let (ra, d) = p_atomic(s, step_to(s, q, pos));
                match ra {
                    None => (acc, pos, d),
                    Some((rhs, p2)) => if pos < p2 <= s.len() {
                        let (acc2, e, d2) = p_mul_more(
                            s,
                            p2,
                            SpecExpr::Mul(Box::new(acc), Box::new(rhs)),
                        );
                        (acc2, e, d + d2)
                    } else {
                        (acc, pos, d)
                    },
                }
            },
        }
    }
}

/// The multiplicative production: at least two atoms joined by `*`.
pub open spec fn p_level_1(s: Seq<char>, pos: int) -> (Option<(SpecExpr, int)>, int)
    decreases s.len() - pos, 5int,
{
    if pos < 0 || pos >= s.len() {
        (None, 0)
    } else {
        let (rf, d1) = p_atomic(s, pos);
        match rf {
            None => (None, d1),
            Some((first, p1)) => match t_symbol(s, p1, '*') {
                None => (None, d1),
                Some(q) => {
                    let (ro, d2) = p_atomic(s, step_to(s, q, pos));
                    match ro {
                        None => (None, d1 + d2),
                        Some((operand, p2)) => {
                            let (acc, e, d3) = p_mul_more(
                                s,
                                step_to(s, p2, pos),
                                SpecExpr::Mul(Box::new(first), Box::new(operand)),
                            );
                            (Some((acc, e)), d1 + d2 + d3)
                        },
                    }
                },
            },
        }
    }
}

/// A multiplicative chain or a single atom: an additive operand.
pub open spec fn p_operand(s: Seq<char>, pos: int) -> (Option<(SpecExpr, int)>, int)
    decreases s.len() - pos, 6int,
{
    if pos < 0 || pos >= s.len() {
        (None, 0)
    } else {
        let (r1, d1) = p_level_1(s, pos);
        if r1 is Some {
            (r1, d1)
        } else {
            let (r2, d2) = p_atomic(s, pos);
            (r2, d1 + d2)
        }
    }
}

/// The tail of an additive chain: further `+`/`-` operand pairs while they
/// parse, folded into a left spine.
pub open spec fn p_add_more(s: Seq<char>, pos: int, acc: SpecExpr) -> (SpecExpr, int, int)
    decreases s.len() - pos, 7int,
{
    if pos < 0 || pos >= s.len() {
        (acc, pos, 0)
    } else {
        match t_level_0_operator(s, pos) {
            None => (acc, pos, 0),
            Some((minus, q)) => {
                let (ro, d) = p_operand(s, step_to(s, q, pos));
                match ro {
                    None => (acc, pos, d),
                    Some((rhs, p2)) => if pos < p2 <= s.len() {
                        let acc2 = if minus {
                            SpecExpr::Sub(Box::new(acc), Box::new(rhs))
                        } else {
                            SpecExpr::Add(Box::new(acc), Box::new(rhs))
                        };
                        let (acc3, e, d2) = p_add_more(s, p2, acc2);
                        (acc3, e, d + d2)
                    } else {
                        (acc, pos, d)
                    },
                }
            },
        }
    }
}

/// The additive production: at least two operands joined by `+` or `-`.
pub open spec fn p_level_0(s: Seq<char>, pos: int) -> (Option<(SpecExpr, int)>, int)
    decreases s.len() - pos, 7int,
{
    if pos < 0 || pos >= s.len() {
        (None, 0)
    } else {
        let (rf, d1) = p_operand(s, pos);
        match rf {
            None => (None, d1),
            Some((first, p1)) => match t_level_0_operator(s, p1) {
                None => (None, d1),
                Some((minus, q)) => {
                    let (ro, d2) = p_operand(s, step_to(s, q, pos));
                    match ro {
                        None => (None, d1 + d2),
                        Some((operand, p2)) => {
                            let acc = if minus {
                                SpecExpr::Sub(Box::new(first), Box::new(operand))
                            } else {
                                SpecExpr::Add(Box::new(first), Box::new(operand))
                            };
                            let (acc2, e, d3) = p_add_more(s, step_to(s, p2, pos), acc);
                            (Some((acc2, e)), d1 + d2 + d3)
                        },
                    }
                },
            },
        }
    }
}

/// The expression production: the additive level, else the multiplicative
/// level, else a single atom.
pub open spec fn p_expr(s: Seq<char>, pos: int) -> (Option<(SpecExpr, int)>, int)
    decreases s.len() - pos, 8int,
{
    if pos < 0 || pos >= s.len() {
        (None, 0)
    } else {
        let (r0, d0) = p_level_0(s, pos);
        if r0 is Some {
            (r0, d0)
        } else {
            let (r1, d1) = p_level_1(s, pos);
            if r1 is Some {
                (r1, d0 + d1)
            } else {
                let (r2, d2) = p_atomic(s, pos);
                (r2, d0 + d1 + d2)
            }
        }
    }
}

/// The function production: `fn NAME() { BODY }`.
pub open spec fn p_function(s: Seq<char>, pos: int) -> (
    Option<((Seq<char>, SpecExpr), int)>,
    int,
)
    decreases s.len() - pos, 9int,
{
    if pos < 0 || pos >= s.len() {
        (None, 0)
    } else {
        match t_keyword(s, pos, "fn"@) {
            None => (None, 0),
            Some(p0) => match t_ident(s, p0) {
                None => (None, 0),
                Some((name, p1)) => match t_symbol(s, p1, '(') {
                    None => (None, 0),
                    Some(p2) => match t_symbol(s, p2, ')') {
                        None => (None, 0),
                        Some(p3) => {
                            let (rb, d) = p_block(s, step_to(s, p3, pos));
                            match rb {
                                None => (None, d),
                                Some((body, p4)) => (Some(((name, body), p4)), d),
                            }
                        },
                    },
                },
            },
        }
    }
}

/// The tail of a program: further functions while they parse.
pub open spec fn p_functions_more(
    s: Seq<char>,
    pos: int,
    acc: Seq<(Seq<char>, SpecExpr)>,
) -> (Seq<(Seq<char>, SpecExpr)>, int, int)
    decreases s.len() - pos, 10int,
{
    if pos < 0 || pos >= s.len() {
        (acc, pos, 0)
    } else {
        let (rf, d) = p_function(s, pos);
        match rf {
            None => (acc, pos, d),
            Some((f, p2)) => if pos < p2 <= s.len() {
                let (acc2, e, d2) = p_functions_more(s, p2, acc.push(f));
                (acc2, e, d + d2)
            } else {
                (acc, pos, d)
            },
        }
    }
}

/// The program production: functions until the input ends; anything left
/// over fails the parse.
pub open spec fn p_program(s: Seq<char>, pos: int) -> (
    Option<Seq<(Seq<char>, SpecExpr)>>,
    int,
)
    decreases s.len() - pos,
{
    let (fs, e, d) = p_functions_more(s, pos, Seq::empty());
    if e == s.len() {
        (Some(fs), d)
    } else {
        (None, d)
    }
}

// ---------------------------------------------------------------------------
// Expressions
// ---------------------------------------------------------------------------

/// Whether a production's outcome is the one its grammar function gives:
/// same match, a tree the specification tree describes, the same end
/// position, and exactly the predicted number of recovery diagnostics.
pub open spec fn production_matches(
    r: Option<(ExprKind, usize)>,
    m: (Option<(SpecExpr, int)>, int),
    diags: int,
) -> bool {
    &&& (r is Some <==> m.0 is Some)
    &&& (r matches Some((e, p)) ==> (m.0 matches Some((me, mp)) && expr_matches(e, me) && p
        == mp))
    &&& diags == m.1
}

/// Parses an atomic expression: an integer literal, a conditional, a nested
/// block, a boolean literal or a variable reference.
#[verifier::rlimit(100)]
#[verifier::spinoff_prover]
pub fn atomic_expr(s: &Vec<char>, pos: usize, ctxt: &mut ParsingContext) -> (r: Option<
    (ExprKind, usize),
>)
    requires
        pos <= s@.len(),
    ensures
        r matches Some((e, p)) ==> pos < p <= s@.len() && wf_expr(e),
        error_messages(old(ctxt).errs).is_prefix_of(error_messages(final(ctxt).errs)),
        production_matches(
            r,
            p_atomic(s@, pos as int),
            error_messages(final(ctxt).errs).len() - error_messages(old(ctxt).errs).len(),
        ),
    decreases s@.len() - pos, 2int,
{
    if let Some((e, p)) = integer(s, pos) {
        return Some((e, p));
    }
    if let Some((e, p)) = if_else(s, pos, ctxt) {
        return Some((e, p));
    }
    if let Some((e, p)) = block(s, pos, ctxt) {
        return Some((e, p));
    }
    if let Some((e, p)) = bool_expr(s, pos) {
        return Some((e, p));
    }
    ident_expr(s, pos)
}

/// Parses a multiplicative expression: at least two atoms joined by `*`,
/// folded into a left spine.
#[verifier::rlimit(100)]
#[verifier::spinoff_prover]
pub fn level_1_expression(s: &Vec<char>, pos: usize, ctxt: &mut ParsingContext) -> (r: Option<
    (ExprKind, usize),
>)
    requires
        pos <= s@.len(),
    ensures
        r matches Some((e, p)) ==> pos < p <= s@.len() && e is Multiplication && wf_expr(e),
        error_messages(old(ctxt).errs).is_prefix_of(error_messages(final(ctxt).errs)),
        production_matches(
            r,
            p_level_1(s@, pos as int),
            error_messages(final(ctxt).errs).len() - error_messages(old(ctxt).errs).len(),
        ),
    decreases s@.len() - pos, 3int,
{
    let (first, p) = atomic_expr(s, pos, ctxt)?;
    let q = star(s, p)?;
    let (operand, mut p2) = match atomic_expr(s, q, ctxt) {
        Some(t) => t,
        None => {
            return None;
        },
    };
    let mut acc = ExprKind::multiplication(first, operand);
    let ghost mut macc = SpecExpr::Mul(
        Box::new(p_atomic(s@, pos as int).0.unwrap().0),
        Box::new(p_atomic(s@, q as int).0.unwrap().0),
    );
    let ghost whole = p_mul_more(s@, p2 as int, macc);
    let ghost e_fold = error_messages(ctxt.errs).len();
    loop
        invariant_except_break
            ({
                let cont = p_mul_more(s@, p2 as int, macc);
                &&& whole.0 == cont.0
                &&& whole.1 == cont.1
                &&& whole.2 == error_messages(ctxt.errs).len() - e_fold + cont.2
            }),
        invariant
            pos < p2 <= s@.len(),
            acc is Multiplication,
            wf_expr(acc),
            expr_matches(acc, macc),
            error_messages(ctxt.errs).len() >= e_fold,
            error_messages(old(ctxt).errs).is_prefix_of(error_messages(ctxt.errs)),
        ensures
            pos < p2 <= s@.len(),
            acc is Multiplication,
            wf_expr(acc),
            expr_matches(acc, macc),
            whole.0 == macc,
            whole.1 == p2 as int,
            whole.2 == error_messages(ctxt.errs).len() - e_fold,
            error_messages(old(ctxt).errs).is_prefix_of(error_messages(ctxt.errs)),
        decreases s@.len() - p2,
    {
        let save = p2;
        match star(s, p2) {
            None => {
                break ;
            },
            Some(q2) => {
                match atomic_expr(s, q2, ctxt) {
                    None => {
                        p2 = save;
                        break ;
                    },
                    Some((rhs, p3)) => {
                        proof {
                            macc = SpecExpr::Mul(
                                Box::new(macc),
                                Box::new(p_atomic(s@, q2 as int).0.unwrap().0),
                            );
                        }
                        acc = ExprKind::multiplication(acc, rhs);
                        p2 = p3;
                    },
                }
            },
        }
    }
    Some((acc, p2))
}

/// Parses one additive operand: a multiplicative chain, or a single atom.
#[verifier::rlimit(100)]
#[verifier::spinoff_prover]
fn additive_operand(s: &Vec<char>, pos: usize, ctxt: &mut ParsingContext) -> (r: Option<
    (ExprKind, usize),
>)
    requires
        pos <= s@.len(),
    ensures
        r matches Some((e, p)) ==> pos < p <= s@.len() && wf_expr(e),
        error_messages(old(ctxt).errs).is_prefix_of(error_messages(final(ctxt).errs)),
        production_matches(
            r,
            p_operand(s@, pos as int),
            error_messages(final(ctxt).errs).len() - error_messages(old(ctxt).errs).len(),
        ),
    decreases s@.len() - pos, 4int,
{
    match level_1_expression(s, pos, ctxt) {
        Some(t) => Some(t),
        None => atomic_expr(s, pos, ctxt),
    }
}

/// Parses an additive expression: at least two terms joined by `+` or `-`,
/// folded into a left spine.
#[verifier::rlimit(100)]
#[verifier::spinoff_prover]
pub fn level_0_expression(s: &Vec<char>, pos: usize, ctxt: &mut ParsingContext) -> (r: Option<
    (ExprKind, usize),
>)
    requires
        pos <= s@.len(),
    ensures
        r matches Some((e, p)) ==> pos < p <= s@.len() && (e is Addition || e is Subtraction)
            && wf_expr(e),
        error_messages(old(ctxt).errs).is_prefix_of(error_messages(final(ctxt).errs)),
        production_matches(
            r,
            p_level_0(s@, pos as int),
            error_messages(final(ctxt).errs).len() - error_messages(old(ctxt).errs).len(),
        ),
    decreases s@.len() - pos, 5int,
{
    let (first, p) = additive_operand(s, pos, ctxt)?;
    let (op, q) = level_0_operator(s, p)?;
    let (operand, mut p2) = match additive_operand(s, q, ctxt) {
        Some(t) => t,
        None => {
            return None;
        },
    };
    let mut acc = op.make_expr(first, operand);
    let ghost mfirst = p_operand(s@, pos as int).0.unwrap().0;
    let ghost moperand = p_operand(s@, q as int).0.unwrap().0;
    let ghost mut macc = if op is Minus {
        SpecExpr::Sub(Box::new(mfirst), Box::new(moperand))
    } else {
        SpecExpr::Add(Box::new(mfirst), Box::new(moperand))
    };
    let ghost whole = p_add_more(s@, p2 as int, macc);
    let ghost e_fold = error_messages(ctxt.errs).len();
    loop
        invariant_except_break
            ({
                let cont = p_add_more(s@, p2 as int, macc);
                &&& whole.0 == cont.0
                &&& whole.1 == cont.1
                &&& whole.2 == error_messages(ctxt.errs).len() - e_fold + cont.2
            }),
        invariant
            pos < p2 <= s@.len(),
            acc is Addition || acc is Subtraction,
            wf_expr(acc),
            expr_matches(acc, macc),
            error_messages(ctxt.errs).len() >= e_fold,
            error_messages(old(ctxt).errs).is_prefix_of(error_messages(ctxt.errs)),
        ensures
            pos < p2 <= s@.len(),
            acc is Addition || acc is Subtraction,
            wf_expr(acc),
            expr_matches(acc, macc),
            whole.0 == macc,
            whole.1 == p2 as int,
            whole.2 == error_messages(ctxt.errs).len() - e_fold,
            error_messages(old(ctxt).errs).is_prefix_of(error_messages(ctxt.errs)),
        decreases s@.len() - p2,
    {
        let save = p2;
        match level_0_operator(s, p2) {
            None => {
                break ;
            },
            Some((op2, q2)) => {
                match additive_operand(s, q2, ctxt) {
                    None => {
                        p2 = save;
                        break ;
                    },
                    Some((rhs, p3)) => {
                        proof {
                            let mrhs = p_operand(s@, q2 as int).0.unwrap().0;
                            macc = if op2 is Minus {
                                SpecExpr::Sub(Box::new(macc), Box::new(mrhs))
                            } else {
                                SpecExpr::Add(Box::new(macc), Box::new(mrhs))
                            };
                        }
                        acc = op2.make_expr(acc, rhs);
                        p2 = p3;
                    },
                }
            },
        }
    }
    Some((acc, p2))
}

/// Parses an expression, trying the additive level first, then the
/// multiplicative level, then a single atom.
#[verifier::rlimit(100)]
#[verifier::spinoff_prover]
pub fn expr(s: &Vec<char>, pos: usize, ctxt: &mut ParsingContext) -> (r: Option<
    (ExprKind, usize),
>)
    requires
        pos <= s@.len(),
    ensures
        r matches Some((e, p)) ==> pos < p <= s@.len() && wf_expr(e),
        error_messages(old(ctxt).errs).is_prefix_of(error_messages(final(ctxt).errs)),
        production_matches(
            r,
            p_expr(s@, pos as int),
            error_messages(final(ctxt).errs).len() - error_messages(old(ctxt).errs).len(),
        ),
    decreases s@.len() - pos, 6int,
{
    if let Some((e, p)) = level_0_expression(s, pos, ctxt) {
        return Some((e, p));
    }
    if let Some((e, p)) = level_1_expression(s, pos, ctxt) {
        return Some((e, p));
    }
    atomic_expr(s, pos, ctxt)
}

/// Parses `if COND { CONSEQUENT } else { ALTERNATIVE }`.
#[verifier::rlimit(100)]
#[verifier::spinoff_prover]
pub fn if_else(s: &Vec<char>, pos: usize, ctxt: &mut ParsingContext) -> (r: Option<
    (ExprKind, usize),
>)
    requires
        pos <= s@.len(),
    ensures
        r matches Some((e, p)) ==> pos < p <= s@.len() && e is If && wf_expr(e),
        error_messages(old(ctxt).errs).is_prefix_of(error_messages(final(ctxt).errs)),
        production_matches(
            r,
            p_if_else(s@, pos as int),
            error_messages(final(ctxt).errs).len() - error_messages(old(ctxt).errs).len(),
        ),
    decreases s@.len() - pos, 1int,
{
    let p = if_(s, pos)?;
    let (condition, p) = expr(s, p, ctxt)?;
    let (consequent, p) = block(s, p, ctxt)?;
    let p = else_(s, p)?;
    let (alternative, p) = block(s, p, ctxt)?;
    Some((ExprKind::if_(condition, consequent, alternative), p))
}

/// Parses `let NAME = VALUE;`, recovering when the `=` or the `;` is
/// missing: the diagnostic is recorded and parsing continues as if the
/// token had been present.
#[verifier::rlimit(100)]
#[verifier::spinoff_prover]
pub fn binding(s: &Vec<char>, pos: usize, ctxt: &mut ParsingContext) -> (r: Option<
    (Binding, usize),
>)
    requires
        pos <= s@.len(),
        s@.len() <= u64::MAX - 1,
    ensures
        r matches Some((b, p)) ==> pos < p <= s@.len() && wf_expr(b.value),
        error_messages(old(ctxt).errs).is_prefix_of(error_messages(final(ctxt).errs)),
        ({
            let (m, d) = p_binding(s@, pos as int);
            &&& (r is Some <==> m is Some)
            &&& (r matches Some((b, p)) ==> (m matches Some((mb, mp)) && b.name@ == mb.0
                && expr_matches(b.value, mb.1) && p == mp))
            &&& error_messages(final(ctxt).errs).len() == error_messages(old(ctxt).errs).len()
                + d
        }),
    decreases s@.len() - pos, 1int,
{
    let ghost errs0 = error_messages(old(ctxt).errs);
    let p = let_(s, pos)?;
    let (name, p) = ident(s, p)?;
    let p = match equal(s, p) {
        Some(q) => q,
        None => {
            let (line, col) = line_col(s, p);
            proof {
                reveal_strlit("`=`");
            }
            let msg = expected_token_message(line, col, "`=`");
            ctxt.errs.add_string(msg);
            p
        },
    };
    proof {
        assert(errs0.is_prefix_of(error_messages(ctxt.errs)));
    }
    let ghost errs1 = error_messages(ctxt.errs);
    let (value, p) = expr(s, p, ctxt)?;
    proof {
        lemma_msgs_prefix_trans(errs0, errs1, error_messages(ctxt.errs));
    }
    let ghost errs2 = error_messages(ctxt.errs);
    let p = match semicolon(s, p) {
        Some(q) => q,
        None => {
            let (line, col) = line_col(s, p);
            proof {
                reveal_strlit("`;`");
            }
            let msg = expected_token_message(line, col, "`;`");
            ctxt.errs.add_string(msg);
            p
        },
    };
    proof {
        lemma_msgs_prefix_trans(errs0, errs2, error_messages(ctxt.errs));
    }
    Some((Binding::new(name, value), p))
}

/// Parses one or more bindings followed by the ending expression.
#[verifier::rlimit(100)]
#[verifier::spinoff_prover]
pub fn bindings(s: &Vec<char>, pos: usize, ctxt: &mut ParsingContext) -> (r: Option<
    (ExprKind, usize),
>)
    requires
        pos <= s@.len(),
        s@.len() <= u64::MAX - 1,
    ensures
        r matches Some((e, p)) ==> pos < p <= s@.len() && (e matches ExprKind::Bindings(b)
            && b.defines@.len() >= 1) && wf_expr(e),
        error_messages(old(ctxt).errs).is_prefix_of(error_messages(final(ctxt).errs)),
        production_matches(
            r,
            p_bindings(s@, pos as int),
            error_messages(final(ctxt).errs).len() - error_messages(old(ctxt).errs).len(),
        ),
    decreases s@.len() - pos, 2int,
{
    let (first, mut p) = binding(s, pos, ctxt)?;
    let mut bs: Vec<Binding> = Vec::new();
    bs.push(first);
    proof {
        assert(wf_defines(bs, 0));
        assert(wf_defines(bs, 1));
    }
    let ghost mfirst = p_binding(s@, pos as int).0.unwrap().0;
    let ghost mut mbs: Seq<(Seq<char>, SpecExpr)> = seq![mfirst];
    proof {
        assert(defines_match(bs, mbs, 0));
        assert(bs@[0] == first);
        assert(mbs[0] == mfirst);
        assert(defines_match(bs, mbs, 1));
    }
    let ghost whole = p_lets_more(s@, p as int, mbs);
    let ghost e_fold = error_messages(ctxt.errs).len();
    loop
        invariant_except_break
            ({
                let cont = p_lets_more(s@, p as int, mbs);
                &&& whole.0 == cont.0
                &&& whole.1 == cont.1
                &&& whole.2 == error_messages(ctxt.errs).len() - e_fold + cont.2
            }),
        invariant
            pos < p <= s@.len(),
            s@.len() <= u64::MAX - 1,
            1 <= bs@.len(),
            bs@.len() <= p,
            bs@.len() == mbs.len(),
            defines_match(bs, mbs, bs@.len() as int),
            wf_defines(bs, bs@.len() as int),
            error_messages(ctxt.errs).len() >= e_fold,
            error_messages(old(ctxt).errs).is_prefix_of(error_messages(ctxt.errs)),
        ensures
            pos < p <= s@.len(),
            1 <= bs@.len() <= s@.len(),
            bs@.len() == mbs.len(),
            defines_match(bs, mbs, bs@.len() as int),
            wf_defines(bs, bs@.len() as int),
            whole.0 == mbs,
            whole.1 == p as int,
            whole.2 == error_messages(ctxt.errs).len() - e_fold,
            error_messages(old(ctxt).errs).is_prefix_of(error_messages(ctxt.errs)),
        decreases s@.len() - p,
    {
        let save = p;
        match binding(s, p, ctxt) {
            None => {
                p = save;
                break ;
            },
            Some((b, p2)) => {
                let ghost bs0 = bs;
                let ghost mbs0 = mbs;
                bs.push(b);
                proof {
                    lemma_wf_defines_grow(bs0, bs, bs0@.len() as int);
                    assert(wf_defines(bs, bs@.len() as int));
                    mbs = mbs.push(p_binding(s@, p as int).0.unwrap().0);
                    lemma_defines_match_grow(bs0, bs, mbs0, mbs, bs0@.len() as int);
                    assert(defines_match(bs, mbs, bs@.len() as int));
                }
                p = p2;
            },
        }
    }
    if bs.len() > u16::MAX as usize {
        return None;
    }
    let (ending, p) = expr(s, p, ctxt)?;
    Some((ExprKind::bindings(bs, ending), p))
}

/// Parses `{ BINDINGS-or-EXPRESSION }`.
#[verifier::rlimit(100)]
#[verifier::spinoff_prover]
pub fn block(s: &Vec<char>, pos: usize, ctxt: &mut ParsingContext) -> (r: Option<
    (ExprKind, usize),
>)
    requires
        pos <= s@.len(),
    ensures
        r matches Some((e, p)) ==> pos < p <= s@.len() && wf_expr(e),
        error_messages(old(ctxt).errs).is_prefix_of(error_messages(final(ctxt).errs)),
        production_matches(
            r,
            p_block(s@, pos as int),
            error_messages(final(ctxt).errs).len() - error_messages(old(ctxt).errs).len(),
        ),
    decreases s@.len() - pos, 1int,
{
    // diagnostic positions are counted in 64 bits
    if s.len() > usize::MAX - 1 {
        return None;
    }
    let p = left_curly(s, pos)?;
    let inner = match bindings(s, p, ctxt) {
        Some(t) => Some(t),
        None => expr(s, p, ctxt),
    };
    let (e, p) = inner?;
    let p = right_curly(s, p)?;
    Some((e, p))
}

/// Parses `fn NAME() { BODY }`.
pub fn function(s: &Vec<char>, pos: usize, ctxt: &mut ParsingContext) -> (r: Option<
    (Function, usize),
>)
    requires
        pos <= s@.len(),
    ensures
        r matches Some((f, p)) ==> pos < p <= s@.len() && wf_expr(f.body),
        error_messages(old(ctxt).errs).is_prefix_of(error_messages(final(ctxt).errs)),
        ({
            let (m, d) = p_function(s@, pos as int);
            &&& (r is Some <==> m is Some)
            &&& (r matches Some((f, p)) ==> (m matches Some((mf, mp)) && function_matches(
                f,
                mf,
            ) && p == mp))
            &&& error_messages(final(ctxt).errs).len() == error_messages(old(ctxt).errs).len()
                + d
        }),
    decreases s@.len() - pos,
{
    let p = fn_(s, pos)?;
    let (name, p) = ident(s, p)?;
    let p = left_par(s, p)?;
    let p = right_par(s, p)?;
    let (body, p) = block(s, p, ctxt)?;
    Some((Function::new(name, body), p))
}

/// Parses a whole program: functions until the input ends.  Fails when
/// anything but a function remains.
pub fn program(s: &Vec<char>, pos: usize, ctxt: &mut ParsingContext) -> (r: Option<
    (Program, usize),
>)
    requires
        pos <= s@.len(),
    ensures
        r matches Some((prog, p)) ==> p == s@.len() && wf_program(prog),
        error_messages(old(ctxt).errs).is_prefix_of(error_messages(final(ctxt).errs)),
        ({
            let (m, d) = p_program(s@, pos as int);
            &&& (r is Some <==> m is Some)
            &&& (r matches Some((prog, p)) ==> (m matches Some(ms) && program_matches(
                prog,
                ms,
            ) && p == s@.len()))
            &&& error_messages(final(ctxt).errs).len() == error_messages(old(ctxt).errs).len()
                + d
        }),
    decreases s@.len() - pos,
{
    let mut functions: Vec<Function> = Vec::new();
    let mut p = pos;
    let ghost mut mfs: Seq<(Seq<char>, SpecExpr)> = Seq::empty();
    let ghost whole = p_functions_more(s@, pos as int, mfs);
    let ghost e_fold = error_messages(ctxt.errs).len();
    loop
        invariant_except_break
            ({
                let cont = p_functions_more(s@, p as int, mfs);
                &&& whole.0 == cont.0
                &&& whole.1 == cont.1
                &&& whole.2 == error_messages(ctxt.errs).len() - e_fold + cont.2
            }),
        invariant
            pos <= p <= s@.len(),
            functions@.len() == mfs.len(),
            functions_match(functions, mfs, functions@.len() as int),
            wf_functions(functions, functions@.len() as int),
            error_messages(ctxt.errs).len() >= e_fold,
            error_messages(old(ctxt).errs).is_prefix_of(error_messages(ctxt.errs)),
        ensures
            pos <= p <= s@.len(),
            functions@.len() == mfs.len(),
            functions_match(functions, mfs, functions@.len() as int),
            wf_functions(functions, functions@.len() as int),
            whole.0 == mfs,
            whole.1 == p as int,
            whole.2 == error_messages(ctxt.errs).len() - e_fold,
            error_messages(old(ctxt).errs).is_prefix_of(error_messages(ctxt.errs)),
        decreases s@.len() - p,
    {
        let save = p;
        match function(s, p, ctxt) {
            None => {
                p = save;
                break ;
            },
            Some((f, p2)) => {
                let ghost fs0 = functions;
                let ghost mfs0 = mfs;
                functions.push(f);
                proof {
                    lemma_wf_functions_grow(fs0, functions, fs0@.len() as int);
                    assert(wf_functions(functions, functions@.len() as int));
                    mfs = mfs.push(p_function(s@, p as int).0.unwrap().0);
                    lemma_functions_match_grow(fs0, functions, mfs0, mfs, fs0@.len() as int);
                    assert(functions_match(functions, mfs, functions@.len() as int));
                }
                p = p2;
            },
        }
    }
    if p == s.len() {
        Some((Program::new(functions), p))
    } else {
        None
    }
}

/// Parses a source text into a program.  The pass succeeds exactly when the
/// whole input parses and no recovery diagnostic was recorded.
pub fn parse_input(input_code: &str) -> (r: PassResult<ParsingContext, Program>)
    ensures
        r matches Ok((c, prog)) ==> wf_program(prog) && error_messages(c.errs).len() == 0,
        ({
            let (m, d) = p_program(input_code@, 0);
            &&& (r is Ok <==> (m is Some && d == 0))
            &&& (r matches Ok((c, prog)) ==> (m matches Some(ms) && program_matches(prog, ms)))
        }),
{
    let parsing_ctxt = ParsingContext::new();
    let s = chars_of(input_code);
    let mut ctxt = parsing_ctxt;
    let parsed: Result<Program, ()> = match program(&s, 0, &mut ctxt) {
        Some((prog, _)) => Ok(prog),
        None => Err(()),
    };
    ctxt.wrap_result(parsed)
}

} // verus!
