//! The lexical order on lines of text, and case folding.

use vstd::prelude::*;

verus! {

/// How one line stands to another.
#[derive(Debug, PartialEq, Eq, Structural, Clone, Copy)]
pub enum LineOrder {
    Less,
    Equal,
    Greater,
}

/// The code point of a character.
pub open spec fn code(c: char) -> int {
    c as u32 as int
}

/// Strict lexical order by code point: `a` is a proper prefix of `b`, or the
/// first position where they differ holds the smaller code point in `a`.
pub open spec fn lex_lt(a: Seq<char>, b: Seq<char>) -> bool
    decreases a.len(),
{
    if b.len() == 0 {
        false
    } else if a.len() == 0 {
        true
    } else if a[0] == b[0] {
        lex_lt(a.drop_first(), b.drop_first())
    } else {
        code(a[0]) < code(b[0])
    }
}

/// Three-way outcome of the lexical order.
pub open spec fn line_order(a: Seq<char>, b: Seq<char>) -> LineOrder {
    if a == b {
        LineOrder::Equal
    } else if lex_lt(a, b) {
        LineOrder::Less
    } else {
        LineOrder::Greater
    }
}

/// `a` does not come after `b`.
pub open spec fn lex_le(a: Seq<char>, b: Seq<char>) -> bool {
    a == b || lex_lt(a, b)
}

/// No line comes before itself.
pub proof fn lemma_lex_lt_irreflexive(a: Seq<char>)
    ensures
        !lex_lt(a, a),
    decreases a.len(),
{
    if a.len() > 0 {
        lemma_lex_lt_irreflexive(a.drop_first());
    }
}

/// Two different lines are ordered one way or the other.
pub proof fn lemma_lex_lt_total(a: Seq<char>, b: Seq<char>)
    ensures
        a == b || lex_lt(a, b) || lex_lt(b, a),
    decreases a.len(),
{
    if a.len() == 0 || b.len() == 0 {
        if a.len() == 0 && b.len() == 0 {
            assert(a =~= b);
        }
    } else if a[0] == b[0] {
        lemma_lex_lt_total(a.drop_first(), b.drop_first());
        if a.drop_first() == b.drop_first() {
            assert(a =~= seq![a[0]] + a.drop_first());
            assert(b =~= seq![b[0]] + b.drop_first());
        }
    } else {
        lemma_code_injective(a[0], b[0]);
    }
}

/// Different characters have different code points.
pub proof fn lemma_code_injective(c: char, d: char)
    ensures
        code(c) == code(d) ==> c == d,
{
    assert(c as u32 as char == c);
    assert(d as u32 as char == d);
}

/// Two lines are never each before the other.
pub proof fn lemma_lex_lt_asymmetric(a: Seq<char>, b: Seq<char>)
    requires
        lex_lt(a, b),
    ensures
        !lex_lt(b, a),
    decreases a.len(),
{
    if a.len() > 0 && b.len() > 0 && a[0] == b[0] {
        lemma_lex_lt_asymmetric(a.drop_first(), b.drop_first());
    }
}

/// The strict order is transitive.
pub proof fn lemma_lex_lt_transitive(a: Seq<char>, b: Seq<char>, c: Seq<char>)
    requires
        lex_lt(a, b),
        lex_lt(b, c),
    ensures
        lex_lt(a, c),
    decreases a.len(),
{
    if a.len() > 0 && b.len() > 0 && c.len() > 0 {
        if a[0] == b[0] && b[0] == c[0] {
            lemma_lex_lt_transitive(a.drop_first(), b.drop_first(), c.drop_first());
        }
    }
}

/// The lowercase form of a text, as `str::to_lowercase` gives it.
pub uninterp spec fn lowercase(text: Seq<char>) -> Seq<char>;

/// The value by which a line is compared: its lowercase form where case is
/// ignored, the line itself where it is not.
pub open spec fn key_of(text: Seq<char>, insensitive: bool) -> Seq<char> {
    if insensitive {
        lowercase(text)
    } else {
        text
    }
}

/// Trusted: `str::cmp`. Its documentation orders strings lexicographically by
/// their bytes, which is the order of their code points; the contract states
/// that order over the characters.
#[verifier::external_body]
pub(crate) fn compare(a: &str, b: &str) -> (r: LineOrder)
    ensures
        r == line_order(a@, b@),
{
    match a.cmp(b) {
        std::cmp::Ordering::Less => LineOrder::Less,
        std::cmp::Ordering::Equal => LineOrder::Equal,
        std::cmp::Ordering::Greater => LineOrder::Greater,
    }
}

/// Trusted: `str::to_lowercase`. The contract only names its result, which
/// depends on the text alone.
#[verifier::external_body]
pub(crate) fn to_lowercase(text: &str) -> (r: String)
    ensures
        r@ == lowercase(text@),
{
    text.to_lowercase()
}

} // verus!
