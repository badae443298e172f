//! Runs of equal adjacent lines, each reported once.

use vstd::prelude::*;
use crate::number::{decimal, decimal_text, right_align, right_aligned};
use crate::order::{compare, LineOrder};
use crate::text::{option_text, texts_of, trim_end, trimmed_end, STDIN_NAME};

verus! {

/// Where to read, where to write, and whether to count.
#[derive(Debug, PartialEq, Eq)]
pub struct Config {
    pub in_file: String,
    pub out_file: Option<String>,
    pub count: bool,
}

/// The width of a reported count.
pub const COUNT_WIDTH: usize = 4;

/// Makes the configuration of what was asked for, with standard input where
/// no input file was named.
pub fn get_args(in_file: Option<String>, out_file: Option<String>, count: bool) -> (config: Config)
    ensures
        config.in_file@ == (match in_file {
            Some(name) => name@,
            None => STDIN_NAME@,
        }),
        config.out_file == out_file,
        config.count == count,
{
    let in_file = match in_file {
        Some(name) => name,
        None => String::from_str(STDIN_NAME),
    };
    Config { in_file, out_file, count }
}

/// Two lines are repeats of each other where they are the same but for the
/// white space at their ends.
pub open spec fn repeats(a: Seq<char>, b: Seq<char>) -> bool {
    trimmed_end(a) == trimmed_end(b)
}

/// Whether two lines are repeats of each other.
pub fn same_line(a: &str, b: &str) -> (r: bool)
    ensures
        r == repeats(a@, b@),
{
    match compare(trim_end(a), trim_end(b)) {
        LineOrder::Equal => true,
        _ => false,
    }
}

/// What is written for a run of `count` repeats of a line: nothing for no
/// line; else the line as it was read, behind its count where counts are
/// shown.
pub open spec fn group_spec(count: nat, text: Seq<char>, show_count: bool) -> Option<Seq<char>> {
    if count == 0 {
        None
    } else if show_count {
        Some(right_aligned(decimal(count), COUNT_WIDTH as nat) + seq![' '] + text)
    } else {
        Some(text)
    }
}

/// Lays out what is written for a run of `count` repeats of a line.
pub fn format_group(count: usize, text: &str, show_count: bool) -> (out: Option<String>)
    ensures
        option_text(out) == group_spec(count as nat, text@, show_count),
{
    if count == 0 {
        None
    } else if show_count {
        let digits = decimal_text(count);
        let mut out = right_align(digits.as_str(), COUNT_WIDTH);
        proof {
            reveal_strlit(" ");
        }
        out.append(" ");
        out.append(text);
        assert(out@ =~= right_aligned(decimal(count as nat), COUNT_WIDTH as nat) + seq![' ']
            + text@);
        Some(out)
    } else {
        Some(String::from_str(text))
    }
}

/// The run of repeats that is being read: its first line and the number of
/// lines in it so far. Before the first line it is the empty line, no times.
#[derive(Debug, PartialEq, Eq)]
pub struct Run {
    pub previous: String,
    pub count: usize,
}

/// What a `Run` holds.
pub struct RunView {
    pub previous: Seq<char>,
    pub count: nat,
}

impl View for Run {
    type V = RunView;

    open spec fn view(&self) -> RunView {
        RunView { previous: self.previous@, count: self.count as nat }
    }
}

impl RunView {
    /// The run before any line is read.
    pub open spec fn start() -> RunView {
        RunView { previous: Seq::empty(), count: 0 }
    }

    /// The run after one more line: the same run, one longer, where the line
    /// repeats it; else a new run of that line.
    pub open spec fn fed(self, line: Seq<char>) -> RunView {
        if repeats(line, self.previous) {
            RunView { previous: self.previous, count: self.count + 1 }
        } else {
            RunView { previous: line, count: 1 }
        }
    }

    /// What is written when one more line is read: the run so far, where the
    /// line does not repeat it.
    pub open spec fn closed_by(self, line: Seq<char>, show_count: bool) -> Option<Seq<char>> {
        if repeats(line, self.previous) {
            None
        } else {
            group_spec(self.count, self.previous, show_count)
        }
    }
}

impl Run {
    /// The run before any line is read.
    pub fn new() -> (run: Run)
        ensures
            run@ == RunView::start(),
    {
        Run { previous: String::new(), count: 0 }
    }

    /// Reads one more line, and gives what is to be written for the run that
    /// the line ends, if it ends one.
    pub fn feed(&mut self, line: String, show_count: bool) -> (out: Option<String>)
        requires
            old(self).count < usize::MAX,
        ensures
            final(self)@ == old(self)@.fed(line@),
            option_text(out) == old(self)@.closed_by(line@, show_count),
    {
        if same_line(line.as_str(), self.previous.as_str()) {
            self.count = self.count + 1;
            None
        } else {
            let out = format_group(self.count, self.previous.as_str(), show_count);
            self.previous = line;
            self.count = 1;
            out
        }
    }

    /// What is to be written for the last run when the input has ended.
    pub fn finish(&self, show_count: bool) -> (out: Option<String>)
        ensures
            option_text(out) == group_spec(self@.count, self@.previous, show_count),
    {
        format_group(self.count, self.previous.as_str(), show_count)
    }
}

/// The run that is being read after the lines of an input.
pub open spec fn run_after(lines: Seq<Seq<char>>) -> RunView
    decreases lines.len(),
{
    if lines.len() == 0 {
        RunView::start()
    } else {
        run_after(lines.drop_last()).fed(lines.last())
    }
}

/// What has been written after the lines of an input, before its end is
/// known.
pub open spec fn written_after(lines: Seq<Seq<char>>, show_count: bool) -> Seq<Seq<char>>
    decreases lines.len(),
{
    if lines.len() == 0 {
        Seq::empty()
    } else {
        let before = written_after(lines.drop_last(), show_count);
        match run_after(lines.drop_last()).closed_by(lines.last(), show_count) {
            Some(out) => before.push(out),
            None => before,
        }
    }
}

/// All that is written for an input: one piece for each run of repeats.
pub open spec fn uniq_spec(lines: Seq<Seq<char>>, show_count: bool) -> Seq<Seq<char>> {
    let before = written_after(lines, show_count);
    match group_spec(run_after(lines).count, run_after(lines).previous, show_count) {
        Some(out) => before.push(out),
        None => before,
    }
}

/// No run is longer than the input.
pub proof fn lemma_run_within_input(lines: Seq<Seq<char>>)
    ensures
        run_after(lines).count <= lines.len(),
    decreases lines.len(),
{
    if lines.len() > 0 {
        lemma_run_within_input(lines.drop_last());
    }
}

/// Reports each run of repeats among the lines of an input once, with the
/// length of the run where counts are shown. The lines are given as they
/// were read, with their line ends, and are written as they are.
pub fn run(config: &Config, lines: &Vec<String>) -> (out: Vec<String>)
    ensures
        texts_of(out@) == uniq_spec(texts_of(lines@), config.count),
{
    let ghost all = texts_of(lines@);
    let mut out: Vec<String> = Vec::new();
    let mut current = Run::new();
    let mut i: usize = 0;
    assert(all.take(0) =~= Seq::<Seq<char>>::empty());
    assert(texts_of(out@) =~= Seq::<Seq<char>>::empty());
    while i < lines.len()
        invariant
            i <= lines.len(),
            all == texts_of(lines@),
            current@ == run_after(all.take(i as int)),
            texts_of(out@) == written_after(all.take(i as int), config.count),
        decreases lines.len() - i,
    {
        let ghost before = texts_of(out@);
        proof {
            lemma_run_within_input(all.take(i as int));
            assert(all.take(i + 1).drop_last() =~= all.take(i as int));
            assert(all.take(i + 1).last() == lines[i as int]@);
        }
        match current.feed(lines[i].clone(), config.count) {
            Some(piece) => {
                out.push(piece);
                assert(texts_of(out@) =~= before.push(piece@));
            },
            None => {},
        }
        i += 1;
    }
    assert(all.take(i as int) =~= all);
    let ghost before = texts_of(out@);
    match current.finish(config.count) {
        Some(piece) => {
            out.push(piece);
            assert(texts_of(out@) =~= before.push(piece@));
        },
        None => {},
    }
    out
}

} // verus!
