//! Texts and names shared by the utilities.

use vstd::prelude::*;
use vstd::utf8::{encode_utf8, valid_utf8};

verus! {

/// The name that stands for standard input.
pub const STDIN_NAME: &'static str = "-";

/// The texts of a vector of strings.
pub open spec fn texts_of(strings: Seq<String>) -> Seq<Seq<char>> {
    Seq::new(strings.len(), |i: int| strings[i]@)
}

/// The text of an optional string.
pub open spec fn option_text(text: Option<String>) -> Option<Seq<char>> {
    match text {
        Some(t) => Some(t@),
        None => None,
    }
}

/// Whether a name stands for standard input.
pub fn is_stdin(name: &str) -> (r: bool)
    ensures
        r == (name@ == STDIN_NAME@),
{
    proof {
        reveal_strlit("-");
    }
    if name.unicode_len() == 1 {
        let same = name.get_char(0) == '-';
        assert(same ==> name@ =~= STDIN_NAME@);
        same
    } else {
        false
    }
}

/// Whether a character is white space, as `char::is_whitespace` says.
pub uninterp spec fn whitespace(c: char) -> bool;

/// Trusted: `char::is_whitespace`. The contract only names its result, which
/// depends on the character alone.
#[verifier::external_body]
pub(crate) fn is_whitespace(c: char) -> (r: bool)
    ensures
        r == whitespace(c),
{
    c.is_whitespace()
}

/// A text without the white space at its end.
pub open spec fn trimmed_end(text: Seq<char>) -> Seq<char>
    decreases text.len(),
{
    if text.len() > 0 && whitespace(text.last()) {
        trimmed_end(text.drop_last())
    } else {
        text
    }
}

/// Trusted: `str::trim_end`. Its documentation removes the trailing white
/// space, and counts as white space the characters that
/// `char::is_whitespace` accepts.
#[verifier::external_body]
pub(crate) fn trim_end(text: &str) -> (r: &str)
    ensures
        r@ == trimmed_end(text@),
{
    text.trim_end()
}

/// Trusted: `std::str::from_utf8`. It gives the bytes as a string exactly
/// where they are UTF-8, and the string then holds those bytes.
#[verifier::external_body]
pub(crate) fn from_utf8(data: &[u8]) -> (text: Option<&str>)
    ensures
        text is Some <==> valid_utf8(data@),
        text matches Some(t) ==> encode_utf8(t@) == data@,
{
    std::str::from_utf8(data).ok()
}

/// The file names to work on: those given, or standard input where none is.
pub fn files_or_stdin(files: Vec<String>) -> (names: Vec<String>)
    ensures
        texts_of(names@) == (if files@.len() == 0 {
            seq![STDIN_NAME@]
        } else {
            texts_of(files@)
        }),
{
    if files.len() == 0 {
        let mut names: Vec<String> = Vec::new();
        names.push(String::from_str(STDIN_NAME));
        assert(texts_of(names@) =~= seq![STDIN_NAME@]);
        names
    } else {
        files
    }
}

} // verus!
