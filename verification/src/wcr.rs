//! Counting the lines, words, bytes and characters of a text.

use vstd::prelude::*;
use vstd::std_specs::iter::IteratorSpec;
use vstd::utf8::{decode_utf8, encode_utf8, valid_utf8};
use crate::number::{decimal, decimal_text, right_align, right_aligned};
use crate::text::{
    files_or_stdin, from_utf8, is_stdin, is_whitespace, texts_of, whitespace, STDIN_NAME,
};

verus! {

/// Which totals to report, of which files.
#[derive(Debug, PartialEq, Eq)]
pub struct Config {
    pub lines: bool,
    pub words: bool,
    pub bytes: bool,
    pub chars: bool,
    pub files: Vec<String>,
}

/// Why the arguments make no configuration.
#[derive(Debug, PartialEq, Eq, Structural, Clone, Copy)]
pub enum ArgsError {
    /// Bytes and characters were both asked for.
    CharsWithBytes,
}

/// Why an input cannot be counted.
#[derive(Debug, PartialEq, Eq, Structural, Clone, Copy)]
pub enum CountError {
    /// The input is not UTF-8.
    InvalidUtf8,
}

/// The width of a reported total.
pub const FIELD_WIDTH: usize = 8;

/// The four totals of one input.
#[derive(Debug, PartialEq, Eq, Structural, Clone, Copy)]
pub struct FileInfo {
    pub num_lines: usize,
    pub num_words: usize,
    pub num_bytes: usize,
    pub num_chars: usize,
}

impl Default for FileInfo {
    fn default() -> (info: FileInfo)
        ensures
            info == (FileInfo { num_lines: 0, num_words: 0, num_bytes: 0, num_chars: 0 }),
    {
        FileInfo { num_lines: 0, num_words: 0, num_bytes: 0, num_chars: 0 }
    }
}

impl FileInfo {
    /// The totals can be those of a text: no more lines or words than
    /// characters, no more characters than bytes.
    pub open spec fn consistent(self) -> bool {
        &&& self.num_lines <= self.num_chars
        &&& self.num_words <= self.num_chars
        &&& self.num_chars <= self.num_bytes
    }

    /// Whether the totals of two inputs can be summed without overflow.
    pub open spec fn spec_can_add(self, info: FileInfo) -> bool {
        &&& self.num_lines + info.num_lines <= usize::MAX
        &&& self.num_words + info.num_words <= usize::MAX
        &&& self.num_bytes + info.num_bytes <= usize::MAX
        &&& self.num_chars + info.num_chars <= usize::MAX
    }

    /// Whether the totals of two inputs can be summed without overflow.
    pub fn can_add(&self, info: &FileInfo) -> (r: bool)
        ensures
            r == self.spec_can_add(*info),
    {
        self.num_lines <= usize::MAX - info.num_lines && self.num_words <= usize::MAX
            - info.num_words && self.num_bytes <= usize::MAX - info.num_bytes && self.num_chars
            <= usize::MAX - info.num_chars
    }

    /// Whether the totals are consistent and an input of `bytes` bytes can be
    /// added to them without overflow.
    pub fn can_take(&self, bytes: usize) -> (r: bool)
        ensures
            r == (self.consistent() && self.num_bytes + bytes <= usize::MAX),
    {
        self.num_lines <= self.num_chars && self.num_words <= self.num_chars && self.num_chars
            <= self.num_bytes && self.num_bytes <= usize::MAX - bytes
    }

    /// The totals of two inputs together.
    pub fn add(&self, info: &FileInfo) -> (sum: FileInfo)
        requires
            self.spec_can_add(*info),
        ensures
            sum.num_lines == self.num_lines + info.num_lines,
            sum.num_words == self.num_words + info.num_words,
            sum.num_bytes == self.num_bytes + info.num_bytes,
            sum.num_chars == self.num_chars + info.num_chars,
    {
        FileInfo {
            num_lines: self.num_lines + info.num_lines,
            num_words: self.num_words + info.num_words,
            num_bytes: self.num_bytes + info.num_bytes,
            num_chars: self.num_chars + info.num_chars,
        }
    }
}

/// The number of line feeds in a text.
pub open spec fn newline_count(text: Seq<char>) -> nat
    decreases text.len(),
{
    if text.len() == 0 {
        0
    } else {
        let here: nat = if text.last() == '\n' {
            1
        } else {
            0
        };
        newline_count(text.drop_last()) + here
    }
}

/// Whether a text ends in a line that no line feed closes.
pub open spec fn ends_open(text: Seq<char>) -> bool {
    text.len() > 0 && text.last() != '\n'
}

/// The number of lines of a text: each line feed closes one, and what
/// follows the last line feed is a line if it is not empty.
pub open spec fn line_count(text: Seq<char>) -> nat {
    let open: nat = if ends_open(text) {
        1
    } else {
        0
    };
    newline_count(text) + open
}

/// Whether a word begins at position `i`: a character that does not separate
/// words, at the start of the text or behind one that does.
pub open spec fn starts_word(text: Seq<char>, i: int) -> bool {
    !whitespace(text[i]) && (i == 0 || whitespace(text[i - 1]))
}

/// The number of words of a text: of its runs of characters that do not
/// separate words.
pub open spec fn word_count(text: Seq<char>) -> nat
    decreases text.len(),
{
    if text.len() == 0 {
        0
    } else {
        let here: nat = if starts_word(text, text.len() - 1) {
            1
        } else {
            0
        };
        word_count(text.drop_last()) + here
    }
}

/// Whether a text ends inside a word.
pub open spec fn ends_in_word(text: Seq<char>) -> bool {
    text.len() > 0 && !whitespace(text.last())
}

/// A count in progress: what was counted in the characters seen so far, and
/// what of the last one bears on the next.
#[derive(Debug, PartialEq, Eq, Structural, Clone, Copy)]
pub struct Tally {
    pub newlines: usize,
    pub words: usize,
    pub chars: usize,
    pub in_word: bool,
    pub open_line: bool,
}

impl Tally {
    /// The counts are consistent: no more words than characters, no more
    /// lines than characters.
    pub open spec fn wf(self) -> bool {
        &&& self.words <= self.chars
        &&& self.newlines + (if self.open_line {
            1int
        } else {
            0int
        }) <= self.chars
    }

    /// The tally after one more character, of which `space` says whether it
    /// separates words.
    pub open spec fn spec_push(self, c: char, space: bool) -> Tally {
        Tally {
            newlines: if c == '\n' {
                (self.newlines + 1) as usize
            } else {
                self.newlines
            },
            words: if !space && !self.in_word {
                (self.words + 1) as usize
            } else {
                self.words
            },
            chars: (self.chars + 1) as usize,
            in_word: !space,
            open_line: c != '\n',
        }
    }

    /// The tally is that of a text, where `spaces` says of each character
    /// whether it separates words.
    pub open spec fn tracks(self, text: Seq<char>) -> bool {
        &&& self.newlines == newline_count(text)
        &&& self.words == word_count(text)
        &&& self.chars == text.len()
        &&& self.in_word == ends_in_word(text)
        &&& self.open_line == ends_open(text)
    }

    /// The number of lines counted.
    pub open spec fn spec_lines(self) -> int {
        self.newlines + (if self.open_line {
            1int
        } else {
            0int
        })
    }

    /// The tally of no text.
    pub fn new() -> (tally: Tally)
        ensures
            tally == (Tally { newlines: 0, words: 0, chars: 0, in_word: false, open_line: false }),
            tally.wf(),
            tally.tracks(Seq::empty()),
    {
        Tally { newlines: 0, words: 0, chars: 0, in_word: false, open_line: false }
    }

    /// Counts one more character, of which `space` says whether it separates
    /// words.
    pub fn push(self, c: char, space: bool) -> (next: Tally)
        requires
            self.wf(),
            self.chars < usize::MAX,
        ensures
            next == self.spec_push(c, space),
            next.wf(),
            next.chars == self.chars + 1,
            next.newlines == self.newlines + (if c == '\n' {
                1int
            } else {
                0int
            }),
            next.words == self.words + (if !space && !self.in_word {
                1int
            } else {
                0int
            }),
    {
        Tally {
            newlines: if c == '\n' {
                self.newlines + 1
            } else {
                self.newlines
            },
            words: if !space && !self.in_word {
                self.words + 1
            } else {
                self.words
            },
            chars: self.chars + 1,
            in_word: !space,
            open_line: c != '\n',
        }
    }

    /// The totals of the text counted, which holds `bytes` bytes.
    pub fn finish(self, bytes: usize) -> (info: FileInfo)
        requires
            self.wf(),
        ensures
            info.num_lines == self.spec_lines(),
            info.num_words == self.words,
            info.num_bytes == bytes,
            info.num_chars == self.chars,
    {
        FileInfo {
            num_lines: if self.open_line {
                self.newlines + 1
            } else {
                self.newlines
            },
            num_words: self.words,
            num_bytes: bytes,
            num_chars: self.chars,
        }
    }
}

/// A tally that follows a text follows it still when one more character is
/// counted with its true class.
pub proof fn lemma_push_tracks(tally: Tally, text: Seq<char>, c: char)
    requires
        tally.wf(),
        tally.chars < usize::MAX,
        tally.tracks(text),
    ensures
        tally.spec_push(c, whitespace(c)).tracks(text.push(c)),
{
    let longer = text.push(c);
    assert(longer.drop_last() =~= text);
    assert(longer.last() == c);
    if text.len() > 0 {
        assert(longer[longer.len() - 2] == text.last());
    }
}

/// A text has no more characters than its encoding has bytes.
pub proof fn lemma_chars_within_bytes(text: Seq<char>)
    ensures
        text.len() <= encode_utf8(text).len(),
    decreases text.len(),
{
    if text.len() > 0 {
        lemma_chars_within_bytes(text.drop_first());
    }
}

/// Counts the lines, words, bytes and characters of a text.
pub fn count_text(text: &str) -> (info: FileInfo)
    ensures
        info.num_lines == line_count(text@),
        info.num_words == word_count(text@),
        info.num_bytes == encode_utf8(text@).len(),
        info.num_chars == text@.len(),
{
    broadcast use vstd::string::group_string_axioms;

    let bytes = text.as_bytes().len();
    proof {
        lemma_chars_within_bytes(text@);
    }
    let mut tally = Tally::new();
    let mut rest = text.chars();
    let ghost mut seen: Seq<char> = Seq::empty();
    assert(seen + rest.remaining() =~= text@);
    loop
        invariant
            tally.wf(),
            tally.tracks(seen),
            seen + rest.remaining() == text@,
            text@.len() <= usize::MAX,
        ensures
            tally.wf(),
            tally.tracks(text@),
        decreases text@.len() - seen.len(),
    {
        let ghost before = rest.remaining();
        match rest.next() {
            None => {
                assert(seen =~= text@);
                break ;
            },
            Some(c) => {
                proof {
                    lemma_push_tracks(tally, seen, c);
                    assert(seen.push(c) + before.drop_first() =~= seen + before);
                    seen = seen.push(c);
                }
                tally = tally.push(c, is_whitespace(c));
            },
        }
    }
    tally.finish(bytes)
}

impl ArgsError {
    /// The complaint to make of the arguments.
    pub fn message(&self) -> (text: String)
        ensures
            text@ == "the argument '--chars' cannot be used with '--bytes'"@,
    {
        String::from_str("the argument '--chars' cannot be used with '--bytes'")
    }
}

impl CountError {
    /// The complaint to make of the input.
    pub fn message(&self) -> (text: String)
        ensures
            text@ == "stream did not contain valid UTF-8"@,
    {
        String::from_str("stream did not contain valid UTF-8")
    }
}

/// Makes the configuration of what was asked for: lines, words and bytes
/// where no total was named; standard input where no file was. Bytes and
/// characters together are refused.
pub fn get_args(lines: bool, words: bool, bytes: bool, chars: bool, files: Vec<String>) -> (r:
    Result<Config, ArgsError>)
    ensures
        r is Err <==> bytes && chars,
        r matches Ok(config) ==> {
            &&& config.lines == (lines || !(words || bytes || chars))
            &&& config.words == (words || !(lines || bytes || chars))
            &&& config.bytes == (bytes || !(lines || words || chars))
            &&& config.chars == chars
            &&& texts_of(config.files@) == (if files@.len() == 0 {
                seq![STDIN_NAME@]
            } else {
                texts_of(files@)
            })
        },
{
    if !lines && !words && !bytes && !chars {
        Ok(Config { lines: true, words: true, bytes: true, chars: false, files: files_or_stdin(files) })
    } else if bytes && chars {
        Err(ArgsError::CharsWithBytes)
    } else {
        Ok(Config { lines, words, bytes, chars, files: files_or_stdin(files) })
    }
}

/// Counts the lines, words, bytes and characters of an input given by its
/// bytes, which have to be UTF-8.
pub fn count(data: &[u8]) -> (r: Result<FileInfo, CountError>)
    ensures
        r is Ok <==> valid_utf8(data@),
        r matches Ok(info) ==> {
            &&& info == info_of(data@)
            &&& info.consistent()
            &&& info.num_lines == line_count(decode_utf8(data@))
            &&& info.num_words == word_count(decode_utf8(data@))
            &&& info.num_bytes == data@.len()
            &&& info.num_chars == decode_utf8(data@).len()
        },
{
    match from_utf8(data) {
        Some(text) => {
            proof {
                vstd::utf8::encode_utf8_decode_utf8(text@);
                lemma_chars_within_bytes(text@);
                lemma_counts_within_chars(text@);
            }
            Ok(count_text(text))
        },
        None => Err(CountError::InvalidUtf8),
    }
}

/// One total as it is reported: right-aligned in its field where it is
/// shown, nothing where it is not.
pub open spec fn field_spec(value: usize, show: bool) -> Seq<char> {
    if show {
        right_aligned(decimal(value as nat), FIELD_WIDTH as nat)
    } else {
        Seq::empty()
    }
}

/// Lays one total out as it is reported.
pub fn format_field(value: usize, show: bool) -> (field: String)
    ensures
        field@ == field_spec(value, show),
{
    if show {
        let digits = decimal_text(value);
        right_align(digits.as_str(), FIELD_WIDTH)
    } else {
        String::new()
    }
}

/// The line reported for the totals of an input: the totals asked for, then
/// a blank and the name, which is left out for standard input.
pub open spec fn info_line_spec(info: FileInfo, config: Config, filename: Seq<char>) -> Seq<char> {
    field_spec(info.num_lines, config.lines) + field_spec(info.num_words, config.words)
        + field_spec(info.num_bytes, config.bytes) + field_spec(info.num_chars, config.chars) + (
    if filename == STDIN_NAME@ {
        Seq::<char>::empty()
    } else {
        seq![' '] + filename
    })
}

/// Lays out the line reported for the totals of an input, without the
/// line's end.
pub fn info_line(info: &FileInfo, config: &Config, filename: &str) -> (line: String)
    ensures
        line@ == info_line_spec(*info, *config, filename@),
{
    let mut line = format_field(info.num_lines, config.lines);
    line.append(format_field(info.num_words, config.words).as_str());
    line.append(format_field(info.num_bytes, config.bytes).as_str());
    line.append(format_field(info.num_chars, config.chars).as_str());
    if !is_stdin(filename) {
        proof {
            reveal_strlit(" ");
        }
        line.append(" ");
        line.append(filename);
    }
    assert(line@ =~= info_line_spec(*info, *config, filename@));
    line
}

/// The totals of an input given by its bytes.
pub open spec fn info_of(data: Seq<u8>) -> FileInfo {
    FileInfo {
        num_lines: line_count(decode_utf8(data)) as usize,
        num_words: word_count(decode_utf8(data)) as usize,
        num_bytes: data.len() as usize,
        num_chars: decode_utf8(data).len() as usize,
    }
}

/// Counts one input, adds its totals to the sum of those before it, and
/// gives the line to report for it. An input that is not UTF-8 leaves the
/// sum as it was.
pub fn report(config: &Config, filename: &str, data: &[u8], sum: &mut FileInfo) -> (r: Result<
    String,
    CountError,
>)
    requires
        old(sum).consistent(),
        old(sum).num_bytes + data@.len() <= usize::MAX,
    ensures
        r is Ok <==> valid_utf8(data@),
        r is Err ==> *final(sum) == *old(sum),
        r matches Ok(line) ==> {
            &&& line@ == info_line_spec(info_of(data@), *config, filename@)
            &&& final(sum).num_lines == old(sum).num_lines + line_count(decode_utf8(data@))
            &&& final(sum).num_words == old(sum).num_words + word_count(decode_utf8(data@))
            &&& final(sum).num_bytes == old(sum).num_bytes + data@.len()
            &&& final(sum).num_chars == old(sum).num_chars + decode_utf8(data@).len()
            &&& final(sum).consistent()
        },
{
    match count(data) {
        Err(e) => Err(e),
        Ok(info) => {
            let line = info_line(&info, config, filename);
            *sum = sum.add(&info);
            Ok(line)
        },
    }
}

/// A text has no more lines and no more words than characters.
pub proof fn lemma_counts_within_chars(text: Seq<char>)
    ensures
        line_count(text) <= text.len(),
        word_count(text) <= text.len(),
        newline_count(text) + (if ends_open(text) {
            1int
        } else {
            0int
        }) <= text.len(),
    decreases text.len(),
{
    if text.len() > 0 {
        lemma_counts_within_chars(text.drop_last());
    }
}

/// The line reported for the sum of all inputs, where there is not just one.
pub fn total_line(config: &Config, sum: &FileInfo) -> (line: Option<String>)
    ensures
        line is Some <==> config.files@.len() != 1,
        line matches Some(text) ==> text@ == info_line_spec(*sum, *config, "total"@),
{
    if config.files.len() == 1 {
        None
    } else {
        Some(info_line(sum, config, "total"))
    }
}

} // verus!
