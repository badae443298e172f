//! The first lines or bytes of an input.

use vstd::prelude::*;
use vstd::slice::slice_subrange;
use vstd::utf8::{decode_utf8, valid_utf8};
use crate::number::{parse_usize, parsed};
use crate::text::{files_or_stdin, from_utf8, texts_of, STDIN_NAME};

verus! {

/// The number of lines shown where none is asked for.
pub const DEFAULT_LINES: usize = 10;

/// How much to show of which files.
#[derive(Debug, PartialEq, Eq)]
pub struct Config {
    pub lines: usize,
    pub bytes: Option<usize>,
    pub files: Vec<String>,
}

/// Why the arguments make no configuration.
#[derive(Debug, PartialEq, Eq, Structural, Clone, Copy)]
pub enum ArgsError {
    /// Less than one line was asked for.
    LinesTooSmall,
    /// Less than one byte was asked for.
    BytesTooSmall,
    /// Lines and bytes were both asked for.
    LinesWithBytes,
}

impl ArgsError {
    /// The complaint to make of the arguments.
    pub open spec fn spec_message(self) -> Seq<char> {
        match self {
            ArgsError::LinesTooSmall => "the argument '--lines <LINES>' cannot be less than 1"@,
            ArgsError::BytesTooSmall => "the argument '--bytes <BYTES>' cannot be less than 1"@,
            ArgsError::LinesWithBytes =>
                "the argument '--lines <LINES>' cannot be used with '--bytes <BYTES>'"@,
        }
    }

    /// The complaint to make of the arguments.
    pub fn message(&self) -> (text: String)
        ensures
            text@ == self.spec_message(),
    {
        match self {
            ArgsError::LinesTooSmall => String::from_str(
                "the argument '--lines <LINES>' cannot be less than 1",
            ),
            ArgsError::BytesTooSmall => String::from_str(
                "the argument '--bytes <BYTES>' cannot be less than 1",
            ),
            ArgsError::LinesWithBytes => String::from_str(
                "the argument '--lines <LINES>' cannot be used with '--bytes <BYTES>'",
            ),
        }
    }
}

/// What is wrong with the numbers asked for, if anything: the first of a
/// line count under one, a byte count under one, and a byte count beside a
/// line count other than the default.
pub open spec fn args_error(lines: usize, bytes: Option<usize>) -> Option<ArgsError> {
    if lines < 1 {
        Some(ArgsError::LinesTooSmall)
    } else if bytes matches Some(b) && b < 1 {
        Some(ArgsError::BytesTooSmall)
    } else if bytes is Some && lines != DEFAULT_LINES {
        Some(ArgsError::LinesWithBytes)
    } else {
        None
    }
}

impl Config {
    /// The configuration can be run: it asks for at least one line or byte
    /// of at least one file.
    pub open spec fn wf(self) -> bool {
        &&& args_error(self.lines, self.bytes) is None
        &&& self.files@.len() > 0
    }
}

/// Makes the configuration of what was asked for, with standard input where
/// no file was named, or says what is wrong with it.
pub fn get_args(lines: usize, bytes: Option<usize>, files: Vec<String>) -> (r: Result<
    Config,
    ArgsError,
>)
    ensures
        match r {
            Err(e) => args_error(lines, bytes) == Some(e),
            Ok(config) => {
                &&& args_error(lines, bytes) is None
                &&& config.lines == lines
                &&& config.bytes == bytes
                &&& texts_of(config.files@) == (if files@.len() == 0 {
                    seq![STDIN_NAME@]
                } else {
                    texts_of(files@)
                })
                &&& config.wf()
            },
        },
{
    if lines < 1 {
        return Err(ArgsError::LinesTooSmall);
    }
    if let Some(b) = bytes {
        if b < 1 {
            return Err(ArgsError::BytesTooSmall);
        }
        if lines != DEFAULT_LINES {
            return Err(ArgsError::LinesWithBytes);
        }
    }
    let names = files_or_stdin(files);
    assert(texts_of(names@).len() > 0);
    Ok(Config { lines, bytes, files: names })
}

/// Reads a number that is at least one. Any other text comes back as the
/// error.
pub fn parse_positive_int(val: &str) -> (r: Result<usize, String>)
    ensures
        match r {
            Ok(n) => n > 0 && parsed(val@) == Some(n),
            Err(e) => e@ == val@ && (parsed(val@) is None || parsed(val@) == Some(0usize)),
        },
{
    match parse_usize(val) {
        Some(n) => {
            if n > 0 {
                Ok(n)
            } else {
                Err(String::from_str(val))
            }
        },
        None => Err(String::from_str(val)),
    }
}

/// The byte that ends a line.
pub const LINE_FEED: u8 = 10;

/// The number of bytes in the first line of an input, its line feed
/// included.
pub open spec fn first_line_len(data: Seq<u8>) -> nat
    decreases data.len(),
{
    if data.len() == 0 {
        0
    } else if data[0] == LINE_FEED {
        1
    } else {
        1 + first_line_len(data.drop_first())
    }
}

/// What is shown of the first `lines` lines of an input, line ends as they
/// are, and whether the input could be read that far: a line that is not
/// UTF-8 ends the reading, and it and what follows it are not shown.
pub open spec fn shown_lines(data: Seq<u8>, lines: nat) -> (Seq<char>, bool)
    decreases lines,
{
    if lines == 0 || data.len() == 0 {
        (Seq::empty(), true)
    } else {
        let first = data.take(first_line_len(data) as int);
        if valid_utf8(first) {
            let rest = shown_lines(data.skip(first_line_len(data) as int), (lines - 1) as nat);
            (decode_utf8(first) + rest.0, rest.1)
        } else {
            (Seq::empty(), false)
        }
    }
}

/// The head of an input, and whether the input could be read that far.
#[derive(Debug, PartialEq, Eq)]
pub struct Shown {
    pub text: String,
    pub valid: bool,
}

/// Finds where the line that begins at `start` ends.
pub fn line_end(data: &[u8], start: usize) -> (end: usize)
    requires
        start <= data@.len(),
    ensures
        end == start + first_line_len(data@.skip(start as int)),
        start <= end <= data@.len(),
{
    let mut end = start;
    assert(data@.skip(start as int).skip(0) =~= data@.skip(start as int));
    while end < data.len()
        invariant
            start <= end <= data@.len(),
            first_line_len(data@.skip(start as int)) == (end - start) + first_line_len(
                data@.skip(end as int),
            ),
        decreases data@.len() - end,
    {
        let byte = data[end];
        assert(data@.skip(end as int).drop_first() =~= data@.skip(end + 1));
        assert(data@.skip(end as int)[0] == byte);
        if byte == LINE_FEED {
            return end + 1;
        }
        end += 1;
    }
    end
}

/// Shows the first `lines` lines of an input, with their line ends as they
/// are.
pub fn head_lines(data: &[u8], lines: usize) -> (shown: Shown)
    ensures
        (shown.text@, shown.valid) == shown_lines(data@, lines as nat),
{
    let mut text = String::new();
    let mut start: usize = 0;
    let mut left: usize = lines;
    assert(data@.skip(0) =~= data@);
    assert(text@ + shown_lines(data@, lines as nat).0 =~= shown_lines(data@, lines as nat).0);
    while left > 0 && start < data.len()
        invariant
            start <= data@.len(),
            shown_lines(data@, lines as nat).0 == text@ + shown_lines(
                data@.skip(start as int),
                left as nat,
            ).0,
            shown_lines(data@, lines as nat).1 == shown_lines(
                data@.skip(start as int),
                left as nat,
            ).1,
        decreases left,
    {
        let ghost rest = data@.skip(start as int);
        let ghost before = text@;
        let end = line_end(data, start);
        let line = slice_subrange(data, start, end);
        proof {
            assert(rest.take(first_line_len(rest) as int) =~= line@);
            assert(rest.skip(first_line_len(rest) as int) =~= data@.skip(end as int));
        }
        match from_utf8(line) {
            Some(decoded) => {
                proof {
                    vstd::utf8::encode_utf8_decode_utf8(decoded@);
                }
                text.append(decoded);
                start = end;
                left -= 1;
                assert(shown_lines(data@, lines as nat).0 =~= text@ + shown_lines(
                    data@.skip(start as int),
                    left as nat,
                ).0);
            },
            None => {
                assert(before + Seq::<char>::empty() =~= before);
                return Shown { text, valid: false };
            },
        }
    }
    assert(text@ + Seq::<char>::empty() =~= text@);
    Shown { text, valid: true }
}

/// The text that `String::from_utf8_lossy` makes of bytes.
pub uninterp spec fn lossy(data: Seq<u8>) -> Seq<char>;

/// Trusted: `String::from_utf8_lossy`. The contract names its result, which
/// depends on the bytes alone, and states what the documentation says of
/// bytes that are UTF-8: they are decoded as they are.
#[verifier::external_body]
fn from_utf8_lossy(data: &[u8]) -> (text: String)
    ensures
        text@ == lossy(data@),
        valid_utf8(data@) ==> text@ == decode_utf8(data@),
{
    String::from_utf8_lossy(data).into_owned()
}

/// The first `bytes` bytes of an input as text; nothing where the input is
/// shorter than that.
pub fn head_bytes(data: &[u8], bytes: usize) -> (head: String)
    requires
        bytes >= 1,
    ensures
        head@ == (if data@.len() >= bytes {
            lossy(data@.take(bytes as int))
        } else {
            Seq::empty()
        }),
{
    if data.len() >= bytes {
        let first = slice_subrange(data, 0, bytes);
        assert(data@.subrange(0, bytes as int) =~= data@.take(bytes as int));
        from_utf8_lossy(first)
    } else {
        String::new()
    }
}

/// What is shown of an input: its first bytes where a byte count is
/// configured, else its first lines.
pub open spec fn shown_spec(config: Config, data: Seq<u8>) -> (Seq<char>, bool) {
    match config.bytes {
        Some(bytes) => (
            if data.len() >= bytes {
                lossy(data.take(bytes as int))
            } else {
                Seq::empty()
            },
            true,
        ),
        None => shown_lines(data, config.lines as nat),
    }
}

/// Shows the head of an input as the configuration asks for it.
pub fn show(config: &Config, data: &[u8]) -> (shown: Shown)
    requires
        config.bytes matches Some(bytes) ==> bytes >= 1,
    ensures
        (shown.text@, shown.valid) == shown_spec(*config, data@),
{
    match config.bytes {
        Some(bytes) => Shown { text: head_bytes(data, bytes), valid: true },
        None => head_lines(data, config.lines),
    }
}

/// The heading of the file at `index` among `count` files: none for a
/// single file, else the name between arrows on a line of its own, with an
/// empty line before it for every file but the first.
pub open spec fn header_spec(filename: Seq<char>, index: nat, count: nat) -> Seq<char> {
    if count == 1 {
        Seq::empty()
    } else {
        (if index == 0 {
            Seq::<char>::empty()
        } else {
            "\n"@
        }) + "==> "@ + filename + " <==\n"@
    }
}

/// Lays out the heading of the file at `index` among `count` files.
pub fn header(filename: &str, index: usize, count: usize) -> (text: String)
    ensures
        text@ == header_spec(filename@, index as nat, count as nat),
{
    let mut text = String::new();
    if count != 1 {
        if index != 0 {
            text.append("\n");
        }
        text.append("==> ");
        text.append(filename);
        text.append(" <==\n");
    }
    assert(text@ =~= header_spec(filename@, index as nat, count as nat));
    text
}

} // verus!
