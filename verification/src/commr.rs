//! Three-way comparison of two sorted inputs, line by line.

use vstd::prelude::*;
use crate::order::{compare, key_of, line_order, to_lowercase, LineOrder};
use crate::text::{is_stdin, option_text, texts_of, STDIN_NAME};
use crate::theory::lemma_diff_counts;

verus! {

/// What to compare and how to lay the result out.
#[derive(Debug, PartialEq, Eq)]
pub struct Config {
    pub file1: String,
    pub file2: String,
    pub show_col1: bool,
    pub show_col2: bool,
    pub show_col3: bool,
    pub insensitive: bool,
    pub delimiter: String,
}

/// Why a comparison cannot start.
#[derive(Debug, PartialEq, Eq, Structural, Clone, Copy)]
pub enum ConfigurationError {
    /// Both inputs are standard input.
    BothStdin,
}

impl ConfigurationError {
    /// The complaint to make of the configuration.
    pub fn message(&self) -> (text: String)
        ensures
            text@ == "Both input files cannot be STDIN (\"-\")"@,
    {
        String::from_str("Both input files cannot be STDIN (\"-\")")
    }
}

/// The delimiter used where none is given.
pub const DEFAULT_DELIMITER: &'static str = "\t";

/// Makes the configuration of what was asked for: a column is shown unless
/// it is suppressed.
pub fn get_args(
    file1: String,
    file2: String,
    suppress_col1: bool,
    suppress_col2: bool,
    suppress_col3: bool,
    insensitive: bool,
    delimiter: String,
) -> (config: Config)
    ensures
        config == (Config {
            file1,
            file2,
            show_col1: !suppress_col1,
            show_col2: !suppress_col2,
            show_col3: !suppress_col3,
            insensitive,
            delimiter,
        }),
{
    Config {
        file1,
        file2,
        show_col1: !suppress_col1,
        show_col2: !suppress_col2,
        show_col3: !suppress_col3,
        insensitive,
        delimiter,
    }
}

/// Where a line was found.
#[derive(Debug, PartialEq, Eq, Structural, Clone, Copy)]
pub enum Classification {
    OnlyInA,
    OnlyInB,
    InBoth,
}

/// A line as it was read, with the value by which it is compared.
#[derive(Debug, PartialEq, Eq)]
pub struct Line {
    pub text: String,
    pub key: String,
}

/// What a `Line` holds.
pub struct LineView {
    pub text: Seq<char>,
    pub key: Seq<char>,
}

impl View for Line {
    type V = LineView;

    open spec fn view(&self) -> LineView {
        LineView { text: self.text@, key: self.key@ }
    }
}

/// One emitted line with its classification.
#[derive(Debug, PartialEq, Eq)]
pub struct Record {
    pub class: Classification,
    pub value: String,
}

/// What a `Record` holds.
pub struct RecordView {
    pub class: Classification,
    pub value: Seq<char>,
}

impl View for Record {
    type V = RecordView;

    open spec fn view(&self) -> RecordView {
        RecordView { class: self.class, value: self.value@ }
    }
}

impl Config {
    /// Whether records of a classification are shown at all.
    pub open spec fn shows(self, class: Classification) -> bool {
        match class {
            Classification::OnlyInA => self.show_col1,
            Classification::OnlyInB => self.show_col2,
            Classification::InBoth => self.show_col3,
        }
    }

    /// The number of shown columns to the left of a classification's own.
    pub open spec fn placeholders(self, class: Classification) -> nat {
        let first: nat = if self.show_col1 {
            1
        } else {
            0
        };
        let second: nat = if self.show_col2 {
            1
        } else {
            0
        };
        match class {
            Classification::OnlyInA => 0,
            Classification::OnlyInB => first,
            Classification::InBoth => first + second,
        }
    }

    /// Whether both inputs are standard input.
    pub open spec fn both_stdin(self) -> bool {
        self.file1@ == STDIN_NAME@ && self.file2@ == STDIN_NAME@
    }
}

/// One decision of the comparison: the record to emit, if any, and the inputs
/// from which the next line is to be pulled.
#[derive(Debug, PartialEq, Eq)]
pub struct Step {
    pub record: Option<Record>,
    pub advance_a: bool,
    pub advance_b: bool,
}

/// What an optional pending line holds.
pub open spec fn option_line_view(line: Option<&Line>) -> Option<LineView> {
    match line {
        Some(l) => Some(l@),
        None => None,
    }
}

/// What an optional record holds.
pub open spec fn option_record_view(record: Option<Record>) -> Option<RecordView> {
    match record {
        Some(r) => Some(r@),
        None => None,
    }
}

/// The line that a text becomes when it is pulled from an input.
pub open spec fn line_of(text: Seq<char>, insensitive: bool) -> LineView {
    LineView { text, key: key_of(text, insensitive) }
}

/// The classification of the pending lines `a` and `b`; `None` when both
/// inputs are exhausted.
pub open spec fn classify(a: Option<LineView>, b: Option<LineView>) -> Option<Classification> {
    match (a, b) {
        (Some(la), Some(lb)) => Some(
            match line_order(la.key, lb.key) {
                LineOrder::Equal => Classification::InBoth,
                LineOrder::Less => Classification::OnlyInA,
                LineOrder::Greater => Classification::OnlyInB,
            },
        ),
        (Some(_), None) => Some(Classification::OnlyInA),
        (None, Some(_)) => Some(Classification::OnlyInB),
        (None, None) => None,
    }
}

/// The record emitted for the pending lines: the line of B where it is only
/// there, else the line of A as it was read.
pub open spec fn emitted(a: Option<LineView>, b: Option<LineView>) -> Option<RecordView> {
    match classify(a, b) {
        Some(Classification::OnlyInB) => Some(
            RecordView { class: Classification::OnlyInB, value: b->0.text },
        ),
        Some(class) => Some(RecordView { class, value: a->0.text }),
        None => None,
    }
}

impl Classification {
    /// Whether the first input moves on after a record of this classification.
    pub open spec fn spec_advances_a(self) -> bool {
        self != Classification::OnlyInB
    }

    /// Whether the second input moves on after a record of this classification.
    pub open spec fn spec_advances_b(self) -> bool {
        self != Classification::OnlyInA
    }
}

impl Clone for Line {
    fn clone(&self) -> (line: Line)
        ensures
            line@ == self@,
    {
        Line { text: self.text.clone(), key: self.key.clone() }
    }
}

impl Clone for Record {
    fn clone(&self) -> (record: Record)
        ensures
            record@ == self@,
    {
        Record { class: self.class, value: self.value.clone() }
    }
}

impl Line {
    /// Makes the pending line of a text that was read.
    pub fn new(text: String, insensitive: bool) -> (line: Line)
        ensures
            line@ == line_of(text@, insensitive),
    {
        let key = if insensitive {
            to_lowercase(text.as_str())
        } else {
            text.clone()
        };
        Line { text, key }
    }
}

/// Decides one step on the pending lines of the two inputs.
pub fn step(a: Option<&Line>, b: Option<&Line>) -> (s: Step)
    ensures
        option_record_view(s.record) == emitted(option_line_view(a), option_line_view(b)),
        s.advance_a == (classify(option_line_view(a), option_line_view(b)) matches Some(c)
            && c.spec_advances_a()),
        s.advance_b == (classify(option_line_view(a), option_line_view(b)) matches Some(c)
            && c.spec_advances_b()),
{
    match (a, b) {
        (Some(la), Some(lb)) => match compare(la.key.as_str(), lb.key.as_str()) {
            LineOrder::Equal => Step {
                record: Some(Record { class: Classification::InBoth, value: la.text.clone() }),
                advance_a: true,
                advance_b: true,
            },
            LineOrder::Less => Step {
                record: Some(Record { class: Classification::OnlyInA, value: la.text.clone() }),
                advance_a: true,
                advance_b: false,
            },
            LineOrder::Greater => Step {
                record: Some(Record { class: Classification::OnlyInB, value: lb.text.clone() }),
                advance_a: false,
                advance_b: true,
            },
        },
        (Some(la), None) => Step {
            record: Some(Record { class: Classification::OnlyInA, value: la.text.clone() }),
            advance_a: true,
            advance_b: false,
        },
        (None, Some(lb)) => Step {
            record: Some(Record { class: Classification::OnlyInB, value: lb.text.clone() }),
            advance_a: false,
            advance_b: true,
        },
        (None, None) => Step { record: None, advance_a: false, advance_b: false },
    }
}

/// The pending line of an input of which `lines` are left.
pub open spec fn pending(lines: Seq<LineView>) -> Option<LineView> {
    if lines.len() > 0 {
        Some(lines[0])
    } else {
        None
    }
}

/// What is left of an input after a step.
pub open spec fn advance(lines: Seq<LineView>, moves: bool) -> Seq<LineView> {
    if moves && lines.len() > 0 {
        lines.drop_first()
    } else {
        lines
    }
}

/// The records of the whole comparison of the inputs `a` and `b`, in the
/// order in which they are emitted.
pub open spec fn merge(a: Seq<LineView>, b: Seq<LineView>) -> Seq<RecordView>
    decreases a.len() + b.len(),
{
    match classify(pending(a), pending(b)) {
        None => Seq::empty(),
        Some(class) => seq![emitted(pending(a), pending(b))->0] + merge(
            advance(a, class.spec_advances_a()),
            advance(b, class.spec_advances_b()),
        ),
    }
}

/// The lines that the texts of an input become when they are pulled.
pub open spec fn lines_of(texts: Seq<Seq<char>>, insensitive: bool) -> Seq<LineView> {
    Seq::new(texts.len(), |i: int| line_of(texts[i], insensitive))
}

/// The records of the comparison of two inputs given by their texts.
pub open spec fn diff_spec(a: Seq<Seq<char>>, b: Seq<Seq<char>>, insensitive: bool) -> Seq<
    RecordView,
> {
    merge(lines_of(a, insensitive), lines_of(b, insensitive))
}

/// What the lines of a vector hold.
pub open spec fn line_views(lines: Seq<Line>) -> Seq<LineView> {
    Seq::new(lines.len(), |i: int| lines[i]@)
}

/// What the records of a vector hold.
pub open spec fn record_views(records: Seq<Record>) -> Seq<RecordView> {
    Seq::new(records.len(), |i: int| records[i]@)
}

/// Compares two inputs whose lines are all at hand.
pub fn diff_lines(a: &Vec<Line>, b: &Vec<Line>) -> (records: Vec<Record>)
    ensures
        record_views(records@) == merge(line_views(a@), line_views(b@)),
{
    let ghost all_a = line_views(a@);
    let ghost all_b = line_views(b@);
    let mut records: Vec<Record> = Vec::new();
    let mut i: usize = 0;
    let mut j: usize = 0;
    assert(all_a.skip(0) =~= all_a);
    assert(all_b.skip(0) =~= all_b);
    assert(record_views(records@) + merge(all_a, all_b) =~= merge(all_a, all_b));
    loop
        invariant
            i <= a.len(),
            j <= b.len(),
            all_a == line_views(a@),
            all_b == line_views(b@),
            merge(all_a, all_b) == record_views(records@) + merge(
                all_a.skip(i as int),
                all_b.skip(j as int),
            ),
        ensures
            record_views(records@) == merge(all_a, all_b),
        decreases a.len() - i + b.len() - j,
    {
        let line_a = if i < a.len() {
            Some(&a[i])
        } else {
            None
        };
        let line_b = if j < b.len() {
            Some(&b[j])
        } else {
            None
        };
        let ghost rest_a = all_a.skip(i as int);
        let ghost rest_b = all_b.skip(j as int);
        assert(option_line_view(line_a) == pending(rest_a));
        assert(option_line_view(line_b) == pending(rest_b));
        let decided = step(line_a, line_b);
        let ghost before = record_views(records@);
        match decided.record {
            None => {
                assert(before + Seq::<RecordView>::empty() =~= before);
                break ;
            },
            Some(record) => {
                records.push(record);
                assert(record_views(records@) =~= before + seq![record@]);
            },
        }
        if decided.advance_a {
            assert(rest_a.drop_first() =~= all_a.skip(i + 1));
            i += 1;
        }
        if decided.advance_b {
            assert(rest_b.drop_first() =~= all_b.skip(j + 1));
            j += 1;
        }
        assert(merge(rest_a, rest_b) == seq![emitted(pending(rest_a), pending(rest_b))->0] + merge(
            all_a.skip(i as int),
            all_b.skip(j as int),
        ));
        assert(merge(all_a, all_b) =~= record_views(records@) + merge(
            all_a.skip(i as int),
            all_b.skip(j as int),
        ));
    }
    records
}

/// Pulls every text of an input.
pub fn make_lines(texts: &Vec<String>, insensitive: bool) -> (lines: Vec<Line>)
    ensures
        line_views(lines@) == lines_of(texts_of(texts@), insensitive),
{
    let mut lines: Vec<Line> = Vec::new();
    let mut i: usize = 0;
    while i < texts.len()
        invariant
            i <= texts.len(),
            lines.len() == i,
            forall|k: int| 0 <= k < i ==> (#[trigger] lines[k])@ == line_of(texts[k]@, insensitive),
        decreases texts.len() - i,
    {
        lines.push(Line::new(texts[i].clone(), insensitive));
        i += 1;
    }
    assert(line_views(lines@) =~= lines_of(texts_of(texts@), insensitive));
    lines
}

/// Compares two inputs given by their texts: every line of either is
/// classified as only in the first, only in the second, or in both.
pub fn diff(a: &Vec<String>, b: &Vec<String>, insensitive: bool) -> (records: Vec<Record>)
    ensures
        record_views(records@) == diff_spec(texts_of(a@), texts_of(b@), insensitive),
        records@.len() <= a@.len() + b@.len(),
{
    let lines_a = make_lines(a, insensitive);
    let lines_b = make_lines(b, insensitive);
    proof {
        lemma_diff_counts(texts_of(a@), texts_of(b@), insensitive);
    }
    diff_lines(&lines_a, &lines_b)
}

/// The fields of the output line of a record: one empty field for each shown
/// column to the left, then the value; none where the record's column is
/// hidden.
pub open spec fn fields(record: RecordView, config: Config) -> Seq<Seq<char>> {
    if config.shows(record.class) {
        Seq::new(config.placeholders(record.class), |i: int| Seq::<char>::empty()).push(
            record.value,
        )
    } else {
        Seq::empty()
    }
}

/// The fields with the delimiter between each two of them.
pub open spec fn join(fields: Seq<Seq<char>>, delimiter: Seq<char>) -> Seq<char>
    decreases fields.len(),
{
    if fields.len() == 0 {
        Seq::empty()
    } else if fields.len() == 1 {
        fields[0]
    } else {
        fields[0] + delimiter + join(fields.drop_first(), delimiter)
    }
}

/// The output line of a record, if it has one.
pub open spec fn format_spec(record: RecordView, config: Config) -> Option<Seq<char>> {
    if fields(record, config).len() == 0 {
        None
    } else {
        Some(join(fields(record, config), config.delimiter@))
    }
}

/// The output lines of a run of records, in order.
pub open spec fn render(records: Seq<RecordView>, config: Config) -> Seq<Seq<char>>
    decreases records.len(),
{
    if records.len() == 0 {
        Seq::empty()
    } else {
        let before = render(records.drop_last(), config);
        match format_spec(records.last(), config) {
            Some(line) => before.push(line),
            None => before,
        }
    }
}

/// Lays a record out as an output line, without the line's end. A record
/// whose column is hidden gives no line.
pub fn format_record(record: &Record, config: &Config) -> (line: Option<String>)
    ensures
        option_text(line) == format_spec(record@, *config),
{
    let (shown, first, second) = match record.class {
        Classification::OnlyInA => (config.show_col1, false, false),
        Classification::OnlyInB => (config.show_col2, config.show_col1, false),
        Classification::InBoth => (config.show_col3, config.show_col1, config.show_col2),
    };
    if !shown {
        return None;
    }
    let ghost empty = Seq::<char>::empty();
    let ghost all = fields(record@, *config);
    let ghost delimiter = config.delimiter@;
    let mut line = String::new();
    if first {
        line.append(config.delimiter.as_str());
    }
    if second {
        line.append(config.delimiter.as_str());
    }
    line.append(record.value.as_str());
    proof {
        reveal_with_fuel(join, 3);
        if first && second {
            assert(all =~= seq![empty, empty, record.value@]);
            assert(all.drop_first() =~= seq![empty, record.value@]);
            assert(all.drop_first().drop_first() =~= seq![record.value@]);
            assert(join(all.drop_first(), delimiter) =~= empty + delimiter + record.value@);
            assert(join(all, delimiter) =~= line@);
        } else if first || second {
            assert(all =~= seq![empty, record.value@]);
            assert(all.drop_first() =~= seq![record.value@]);
            assert(join(all, delimiter) =~= line@);
        } else {
            assert(all =~= seq![record.value@]);
            assert(join(all, delimiter) =~= line@);
        }
    }
    Some(line)
}

/// Refuses a configuration in which both inputs are standard input.
pub fn check_inputs(config: &Config) -> (r: Result<(), ConfigurationError>)
    ensures
        r is Err <==> config.both_stdin(),
{
    if is_stdin(config.file1.as_str()) && is_stdin(config.file2.as_str()) {
        Err(ConfigurationError::BothStdin)
    } else {
        Ok(())
    }
}

/// Lays out every record that has an output line.
pub fn format_all(records: &Vec<Record>, config: &Config) -> (lines: Vec<String>)
    ensures
        texts_of(lines@) == render(record_views(records@), *config),
{
    let ghost all = record_views(records@);
    let mut lines: Vec<String> = Vec::new();
    let mut i: usize = 0;
    assert(all.take(0) =~= Seq::<RecordView>::empty());
    assert(texts_of(lines@) =~= Seq::<Seq<char>>::empty());
    while i < records.len()
        invariant
            i <= records.len(),
            all == record_views(records@),
            texts_of(lines@) == render(all.take(i as int), *config),
        decreases records.len() - i,
    {
        let ghost before = texts_of(lines@);
        assert(all.take(i + 1).drop_last() =~= all.take(i as int));
        assert(all.take(i + 1).last() == records[i as int]@);
        match format_record(&records[i], config) {
            Some(line) => {
                lines.push(line);
                assert(texts_of(lines@) =~= before.push(line@));
            },
            None => {},
        }
        i += 1;
    }
    assert(all.take(i as int) =~= all);
    lines
}

/// Compares two inputs given by their lines and lays the result out: fails
/// where both inputs are named as standard input, else gives the output
/// lines in order.
pub fn run(config: &Config, lines1: &Vec<String>, lines2: &Vec<String>) -> (r: Result<
    Vec<String>,
    ConfigurationError,
>)
    ensures
        r is Err <==> config.both_stdin(),
        r matches Ok(lines) ==> texts_of(lines@) == render(
            diff_spec(texts_of(lines1@), texts_of(lines2@), config.insensitive),
            *config,
        ),
{
    match check_inputs(config) {
        Err(e) => Err(e),
        Ok(_) => {
            let records = diff(lines1, lines2, config.insensitive);
            Ok(format_all(&records, config))
        },
    }
}

} // verus!
