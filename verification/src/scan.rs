//! Character classes and scanning primitives of the source text: the
//! whitespace, identifier and digit runs the parser's contracts measure
//! positions with.

use vstd::prelude::*;

verus! {

/// Whether a character is insignificant whitespace.
pub open spec fn is_space(c: char) -> bool {
    c == ' ' || c == '\t' || c == '\r' || c == '\n'
}

/// Whether a character is an ASCII letter.
pub open spec fn spec_is_letter(c: char) -> bool {
    ('a' <= c && c <= 'z') || ('A' <= c && c <= 'Z')
}

/// Whether a character is an ASCII digit.
pub open spec fn spec_is_digit(c: char) -> bool {
    '0' <= c && c <= '9'
}


/// The first position at or after `pos` that does not hold whitespace.
pub open spec fn spec_skip_ws(s: Seq<char>, pos: int) -> int
    decreases s.len() - pos,
{
    if pos < 0 {
        pos
    } else if pos < s.len() && is_space(s[pos]) {
        spec_skip_ws(s, pos + 1)
    } else {
        pos
    }
}


/// Whether a character can continue an identifier.
pub open spec fn spec_is_ident_char(c: char) -> bool {
    spec_is_letter(c) || spec_is_digit(c) || c == '_'
}

/// The end of the identifier-character run starting at `q`.
pub open spec fn spec_ident_end(s: Seq<char>, q: int) -> int
    decreases s.len() - q,
{
    if 0 <= q < s.len() && spec_is_ident_char(s[q]) {
        spec_ident_end(s, q + 1)
    } else {
        q
    }
}


/// The end of the digit run starting at `q`.
pub open spec fn spec_digits_end(s: Seq<char>, q: int) -> int
    decreases s.len() - q,
{
    if 0 <= q < s.len() && spec_is_digit(s[q]) {
        spec_digits_end(s, q + 1)
    } else {
        q
    }
}


/// Skipping whitespace never moves backwards.
pub broadcast proof fn lemma_skip_ws_low(s: Seq<char>, pos: int)
    ensures
        pos <= #[trigger] spec_skip_ws(s, pos),
    decreases s.len() - pos,
{
    if 0 <= pos && pos < s.len() && is_space(s[pos]) {
        lemma_skip_ws_low(s, pos + 1);
    }
}

/// Skipping whitespace never leaves the input.
pub broadcast proof fn lemma_skip_ws_high(s: Seq<char>, pos: int)
    ensures
        pos <= s.len() ==> #[trigger] spec_skip_ws(s, pos) <= s.len(),
    decreases s.len() - pos,
{
    if 0 <= pos && pos < s.len() && is_space(s[pos]) {
        lemma_skip_ws_high(s, pos + 1);
    }
}

/// An identifier run never moves backwards.
pub broadcast proof fn lemma_ident_end_low(s: Seq<char>, q: int)
    ensures
        q <= #[trigger] spec_ident_end(s, q),
    decreases s.len() - q,
{
    if 0 <= q && q < s.len() && spec_is_ident_char(s[q]) {
        lemma_ident_end_low(s, q + 1);
    }
}

/// An identifier run never leaves the input.
pub broadcast proof fn lemma_ident_end_high(s: Seq<char>, q: int)
    ensures
        q <= s.len() ==> #[trigger] spec_ident_end(s, q) <= s.len(),
    decreases s.len() - q,
{
    if 0 <= q && q < s.len() && spec_is_ident_char(s[q]) {
        lemma_ident_end_high(s, q + 1);
    }
}

/// A digit run never moves backwards.
pub broadcast proof fn lemma_digits_end_low(s: Seq<char>, q: int)
    ensures
        q <= #[trigger] spec_digits_end(s, q),
    decreases s.len() - q,
{
    if 0 <= q && q < s.len() && spec_is_digit(s[q]) {
        lemma_digits_end_low(s, q + 1);
    }
}

/// A digit run never leaves the input.
pub broadcast proof fn lemma_digits_end_high(s: Seq<char>, q: int)
    ensures
        q <= s.len() ==> #[trigger] spec_digits_end(s, q) <= s.len(),
    decreases s.len() - q,
{
    if 0 <= q && q < s.len() && spec_is_digit(s[q]) {
        lemma_digits_end_high(s, q + 1);
    }
}


} // verus!
