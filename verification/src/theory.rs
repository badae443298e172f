//! What holds of the comparison of two inputs, proved from its definition.

use vstd::prelude::*;
use crate::commr::{
    classify, diff_spec, fields, format_spec, join, lines_of, pending, Classification, Config,
    RecordView,
};
use crate::order::{
    key_of, lemma_lex_lt_asymmetric, lemma_lex_lt_irreflexive, lemma_lex_lt_total,
    lemma_lex_lt_transitive, lex_le, lex_lt,
};

verus! {

/// The classification of the first step on two inputs given by their texts.
pub open spec fn first_class(a: Seq<Seq<char>>, b: Seq<Seq<char>>, insensitive: bool) -> Option<
    Classification,
> {
    classify(pending(lines_of(a, insensitive)), pending(lines_of(b, insensitive)))
}

/// A record of a classification and a value.
pub open spec fn record(class: Classification, value: Seq<char>) -> RecordView {
    RecordView { class, value }
}

/// The comparison, one step unfolded: what the first record is, which inputs
/// move on, and how the pending lines stand to each other.
pub proof fn lemma_diff_first_step(a: Seq<Seq<char>>, b: Seq<Seq<char>>, insensitive: bool)
    ensures
        match first_class(a, b, insensitive) {
            None => a.len() == 0 && b.len() == 0 && diff_spec(a, b, insensitive)
                == Seq::<RecordView>::empty(),
            Some(Classification::OnlyInA) => {
                &&& a.len() > 0
                &&& b.len() > 0 ==> lex_lt(
                    key_of(a[0], insensitive),
                    key_of(b[0], insensitive),
                )
                &&& diff_spec(a, b, insensitive) == seq![record(Classification::OnlyInA, a[0])]
                    + diff_spec(a.drop_first(), b, insensitive)
            },
            Some(Classification::OnlyInB) => {
                &&& b.len() > 0
                &&& a.len() > 0 ==> lex_lt(
                    key_of(b[0], insensitive),
                    key_of(a[0], insensitive),
                )
                &&& diff_spec(a, b, insensitive) == seq![record(Classification::OnlyInB, b[0])]
                    + diff_spec(a, b.drop_first(), insensitive)
            },
            Some(Classification::InBoth) => {
                &&& a.len() > 0
                &&& b.len() > 0
                &&& key_of(a[0], insensitive) == key_of(b[0], insensitive)
                &&& diff_spec(a, b, insensitive) == seq![record(Classification::InBoth, a[0])]
                    + diff_spec(a.drop_first(), b.drop_first(), insensitive)
            },
        },
{
    let la = lines_of(a, insensitive);
    let lb = lines_of(b, insensitive);
    if a.len() > 0 {
        assert(la.drop_first() =~= lines_of(a.drop_first(), insensitive));
    }
    if b.len() > 0 {
        assert(lb.drop_first() =~= lines_of(b.drop_first(), insensitive));
    }
    if a.len() > 0 && b.len() > 0 {
        lemma_lex_lt_total(key_of(a[0], insensitive), key_of(b[0], insensitive));
    }
}

/// The number of records of a classification.
pub open spec fn class_count(records: Seq<RecordView>, class: Classification) -> nat
    decreases records.len(),
{
    if records.len() == 0 {
        0
    } else {
        let here: nat = if records[0].class == class {
            1
        } else {
            0
        };
        here + class_count(records.drop_first(), class)
    }
}

/// The number of lines of an input that are compared by `key`.
pub open spec fn occurrences(texts: Seq<Seq<char>>, key: Seq<char>, insensitive: bool) -> nat
    decreases texts.len(),
{
    if texts.len() == 0 {
        0
    } else {
        let here: nat = if key_of(texts[0], insensitive) == key {
            1
        } else {
            0
        };
        here + occurrences(texts.drop_first(), key, insensitive)
    }
}

/// The number of records of a classification whose value is compared by `key`.
pub open spec fn emitted_count(
    records: Seq<RecordView>,
    class: Classification,
    key: Seq<char>,
    insensitive: bool,
) -> nat
    decreases records.len(),
{
    if records.len() == 0 {
        0
    } else {
        let here: nat = if records[0].class == class && key_of(records[0].value, insensitive)
            == key {
            1
        } else {
            0
        };
        here + emitted_count(records.drop_first(), class, key, insensitive)
    }
}

/// The smaller of two counts.
pub open spec fn least(x: nat, y: nat) -> nat {
    if x <= y {
        x
    } else {
        y
    }
}

/// An input is sorted: no line comes before an earlier one.
pub open spec fn sorted(texts: Seq<Seq<char>>, insensitive: bool) -> bool {
    forall|i: int, j: int|
        0 <= i <= j < texts.len() ==> lex_le(
            #[trigger] key_of(texts[i], insensitive),
            #[trigger] key_of(texts[j], insensitive),
        )
}

/// The records are in non-decreasing order of the value compared.
pub open spec fn records_sorted(records: Seq<RecordView>, insensitive: bool) -> bool {
    forall|i: int, j: int|
        0 <= i <= j < records.len() ==> lex_le(
            #[trigger] key_of(records[i].value, insensitive),
            #[trigger] key_of(records[j].value, insensitive),
        )
}

/// No line of the input comes before `low`.
pub open spec fn bounded_below(texts: Seq<Seq<char>>, low: Seq<char>, insensitive: bool) -> bool {
    forall|i: int| 0 <= i < texts.len() ==> lex_le(low, #[trigger] key_of(texts[i], insensitive))
}

proof fn lemma_counts_of_first(first: RecordView, rest: Seq<RecordView>)
    ensures
        forall|class: Classification| #[trigger]
            class_count(seq![first] + rest, class) == class_count(rest, class) + (if first.class
                == class {
                1nat
            } else {
                0nat
            }),
        forall|class: Classification, key: Seq<char>, insensitive: bool| #[trigger]
            emitted_count(seq![first] + rest, class, key, insensitive) == emitted_count(
                rest,
                class,
                key,
                insensitive,
            ) + (if first.class == class && key_of(first.value, insensitive) == key {
                1nat
            } else {
                0nat
            }),
{
    assert((seq![first] + rest).drop_first() =~= rest);
}

/// Every line of the first input gives one record that is not only in the
/// second, every line of the second one that is not only in the first; so
/// the records number the lines of both inputs less the matches, and those
/// in one input only number the lines of both less twice the matches.
pub proof fn lemma_diff_counts(a: Seq<Seq<char>>, b: Seq<Seq<char>>, insensitive: bool)
    ensures
        class_count(diff_spec(a, b, insensitive), Classification::OnlyInA) + class_count(
            diff_spec(a, b, insensitive),
            Classification::InBoth,
        ) == a.len(),
        class_count(diff_spec(a, b, insensitive), Classification::OnlyInB) + class_count(
            diff_spec(a, b, insensitive),
            Classification::InBoth,
        ) == b.len(),
        diff_spec(a, b, insensitive).len() == a.len() + b.len() - class_count(
            diff_spec(a, b, insensitive),
            Classification::InBoth,
        ),
        class_count(diff_spec(a, b, insensitive), Classification::OnlyInA) + class_count(
            diff_spec(a, b, insensitive),
            Classification::OnlyInB,
        ) == a.len() + b.len() - 2 * class_count(
            diff_spec(a, b, insensitive),
            Classification::InBoth,
        ),
    decreases a.len() + b.len(),
{
    lemma_diff_first_step(a, b, insensitive);
    match first_class(a, b, insensitive) {
        None => {},
        Some(class) => {
            let (rest_a, rest_b) = rest_of(a, b, class);
            lemma_diff_counts(rest_a, rest_b, insensitive);
            lemma_counts_of_first(diff_spec(a, b, insensitive)[0], diff_spec(rest_a, rest_b, insensitive));
        },
    }
}

/// The inputs as they stand after a first step of a classification.
pub open spec fn rest_of(a: Seq<Seq<char>>, b: Seq<Seq<char>>, class: Classification) -> (
    Seq<Seq<char>>,
    Seq<Seq<char>>,
) {
    match class {
        Classification::OnlyInA => (a.drop_first(), b),
        Classification::OnlyInB => (a, b.drop_first()),
        Classification::InBoth => (a.drop_first(), b.drop_first()),
    }
}

proof fn lemma_lex_lt_le(x: Seq<char>, y: Seq<char>, z: Seq<char>)
    requires
        lex_lt(x, y),
        lex_le(y, z),
    ensures
        lex_lt(x, z),
{
    if y != z {
        lemma_lex_lt_transitive(x, y, z);
    }
}

/// What is left of a sorted input is sorted.
pub proof fn lemma_sorted_rest(texts: Seq<Seq<char>>, insensitive: bool)
    requires
        sorted(texts, insensitive),
        texts.len() > 0,
    ensures
        sorted(texts.drop_first(), insensitive),
        bounded_below(texts.drop_first(), key_of(texts[0], insensitive), insensitive),
{
    let rest = texts.drop_first();
    assert forall|i: int, j: int| 0 <= i <= j < rest.len() implies lex_le(
        #[trigger] key_of(rest[i], insensitive),
        #[trigger] key_of(rest[j], insensitive),
    ) by {
        assert(rest[i] == texts[i + 1] && rest[j] == texts[j + 1]);
        assert(lex_le(key_of(texts[i + 1], insensitive), key_of(texts[j + 1], insensitive)));
    }
    assert forall|i: int| 0 <= i < rest.len() implies lex_le(
        key_of(texts[0], insensitive),
        #[trigger] key_of(rest[i], insensitive),
    ) by {
        assert(rest[i] == texts[i + 1]);
        assert(lex_le(key_of(texts[0], insensitive), key_of(texts[i + 1], insensitive)));
    }
}

/// A key that comes before the first line of a sorted input is the key of
/// none of its lines.
pub proof fn lemma_absent_before_first(
    texts: Seq<Seq<char>>,
    key: Seq<char>,
    insensitive: bool,
)
    requires
        sorted(texts, insensitive),
        texts.len() > 0 ==> lex_lt(key, key_of(texts[0], insensitive)),
    ensures
        occurrences(texts, key, insensitive) == 0,
    decreases texts.len(),
{
    if texts.len() > 0 {
        let first = key_of(texts[0], insensitive);
        lemma_lex_lt_irreflexive(key);
        lemma_sorted_rest(texts, insensitive);
        let rest = texts.drop_first();
        if rest.len() > 0 {
            assert(lex_le(first, key_of(rest[0], insensitive)));
            lemma_lex_lt_le(key, first, key_of(rest[0], insensitive));
        }
        lemma_absent_before_first(rest, key, insensitive);
    }
}

/// On sorted inputs the comparison pairs the lines of each key one to one:
/// of the lines compared by `key`, as many are in both as the input with
/// fewer of them holds, and each input's surplus is only in that input.
pub proof fn lemma_diff_partitions_sorted(
    a: Seq<Seq<char>>,
    b: Seq<Seq<char>>,
    insensitive: bool,
    key: Seq<char>,
)
    requires
        sorted(a, insensitive),
        sorted(b, insensitive),
    ensures
        emitted_count(diff_spec(a, b, insensitive), Classification::InBoth, key, insensitive)
            == least(occurrences(a, key, insensitive), occurrences(b, key, insensitive)),
        emitted_count(diff_spec(a, b, insensitive), Classification::OnlyInA, key, insensitive)
            == occurrences(a, key, insensitive) - least(
            occurrences(a, key, insensitive),
            occurrences(b, key, insensitive),
        ),
        emitted_count(diff_spec(a, b, insensitive), Classification::OnlyInB, key, insensitive)
            == occurrences(b, key, insensitive) - least(
            occurrences(a, key, insensitive),
            occurrences(b, key, insensitive),
        ),
    decreases a.len() + b.len(),
{
    lemma_diff_first_step(a, b, insensitive);
    match first_class(a, b, insensitive) {
        None => {},
        Some(class) => {
            let (rest_a, rest_b) = rest_of(a, b, class);
            if class != Classification::OnlyInB {
                lemma_sorted_rest(a, insensitive);
            }
            if class != Classification::OnlyInA {
                lemma_sorted_rest(b, insensitive);
            }
            lemma_diff_partitions_sorted(rest_a, rest_b, insensitive, key);
            lemma_counts_of_first(
                diff_spec(a, b, insensitive)[0],
                diff_spec(rest_a, rest_b, insensitive),
            );
            if class == Classification::OnlyInA && key_of(a[0], insensitive) == key {
                lemma_absent_before_first(b, key, insensitive);
            }
            if class == Classification::OnlyInB && key_of(b[0], insensitive) == key {
                lemma_absent_before_first(a, key, insensitive);
            }
        },
    }
}

/// No record of a comparison comes before a value that no line of either
/// input comes before.
pub proof fn lemma_diff_bounded_below(
    a: Seq<Seq<char>>,
    b: Seq<Seq<char>>,
    insensitive: bool,
    low: Seq<char>,
)
    requires
        bounded_below(a, low, insensitive),
        bounded_below(b, low, insensitive),
    ensures
        forall|k: int|
            0 <= k < diff_spec(a, b, insensitive).len() ==> lex_le(
                low,
                #[trigger] key_of(diff_spec(a, b, insensitive)[k].value, insensitive),
            ),
    decreases a.len() + b.len(),
{
    lemma_diff_first_step(a, b, insensitive);
    match first_class(a, b, insensitive) {
        None => {},
        Some(class) => {
            let (rest_a, rest_b) = rest_of(a, b, class);
            let all = diff_spec(a, b, insensitive);
            let rest = diff_spec(rest_a, rest_b, insensitive);
            assert forall|i: int| 0 <= i < rest_a.len() implies lex_le(
                low,
                #[trigger] key_of(rest_a[i], insensitive),
            ) by {
                if class != Classification::OnlyInB {
                    assert(rest_a[i] == a[i + 1]);
                }
            }
            assert forall|i: int| 0 <= i < rest_b.len() implies lex_le(
                low,
                #[trigger] key_of(rest_b[i], insensitive),
            ) by {
                if class != Classification::OnlyInA {
                    assert(rest_b[i] == b[i + 1]);
                }
            }
            lemma_diff_bounded_below(rest_a, rest_b, insensitive, low);
            assert forall|k: int| 0 <= k < all.len() implies lex_le(
                low,
                #[trigger] key_of(all[k].value, insensitive),
            ) by {
                if k > 0 {
                    assert(all[k] == rest[k - 1]);
                }
            }
        },
    }
}

/// On sorted inputs the records come out in non-decreasing order of the
/// value compared.
pub proof fn lemma_diff_sorted(a: Seq<Seq<char>>, b: Seq<Seq<char>>, insensitive: bool)
    requires
        sorted(a, insensitive),
        sorted(b, insensitive),
    ensures
        records_sorted(diff_spec(a, b, insensitive), insensitive),
    decreases a.len() + b.len(),
{
    lemma_diff_first_step(a, b, insensitive);
    match first_class(a, b, insensitive) {
        None => {},
        Some(class) => {
            let (rest_a, rest_b) = rest_of(a, b, class);
            let all = diff_spec(a, b, insensitive);
            let rest = diff_spec(rest_a, rest_b, insensitive);
            let low = key_of(all[0].value, insensitive);
            if a.len() > 0 {
                lemma_sorted_rest(a, insensitive);
            }
            if b.len() > 0 {
                lemma_sorted_rest(b, insensitive);
            }
            assert(bounded_below(rest_a, low, insensitive)) by {
                assert forall|i: int| 0 <= i < rest_a.len() implies lex_le(
                    low,
                    #[trigger] key_of(rest_a[i], insensitive),
                ) by {
                    if class == Classification::OnlyInB {
                        assert(lex_le(key_of(a[0], insensitive), key_of(a[i], insensitive)));
                        lemma_lex_lt_le(low, key_of(a[0], insensitive), key_of(a[i], insensitive));
                    }
                }
            }
            assert(bounded_below(rest_b, low, insensitive)) by {
                assert forall|i: int| 0 <= i < rest_b.len() implies lex_le(
                    low,
                    #[trigger] key_of(rest_b[i], insensitive),
                ) by {
                    if class == Classification::OnlyInA {
                        assert(lex_le(key_of(b[0], insensitive), key_of(b[i], insensitive)));
                        lemma_lex_lt_le(low, key_of(b[0], insensitive), key_of(b[i], insensitive));
                    }
                }
            }
            lemma_diff_bounded_below(rest_a, rest_b, insensitive, low);
            lemma_diff_sorted(rest_a, rest_b, insensitive);
            assert forall|i: int, j: int| 0 <= i <= j < all.len() implies lex_le(
                #[trigger] key_of(all[i].value, insensitive),
                #[trigger] key_of(all[j].value, insensitive),
            ) by {
                if j > 0 {
                    assert(all[j] == rest[j - 1]);
                }
                if i > 0 {
                    assert(all[i] == rest[i - 1]);
                }
            }
        },
    }
}

/// The values of the records that are not of a classification, in order.
pub open spec fn values_outside(records: Seq<RecordView>, class: Classification) -> Seq<Seq<char>>
    decreases records.len(),
{
    if records.len() == 0 {
        Seq::empty()
    } else if records[0].class == class {
        values_outside(records.drop_first(), class)
    } else {
        seq![records[0].value] + values_outside(records.drop_first(), class)
    }
}

/// The values by which the lines of an input are compared, in order.
pub open spec fn keys_of(texts: Seq<Seq<char>>, insensitive: bool) -> Seq<Seq<char>> {
    Seq::new(texts.len(), |i: int| key_of(texts[i], insensitive))
}

/// The records that are not only in the second input are the lines of the
/// first, each once, in their order and as they were read.
pub proof fn lemma_diff_keeps_first_input(a: Seq<Seq<char>>, b: Seq<Seq<char>>, insensitive: bool)
    ensures
        values_outside(diff_spec(a, b, insensitive), Classification::OnlyInB) == a,
    decreases a.len() + b.len(),
{
    lemma_diff_first_step(a, b, insensitive);
    let all = diff_spec(a, b, insensitive);
    match first_class(a, b, insensitive) {
        None => {
            assert(a =~= Seq::<Seq<char>>::empty());
        },
        Some(class) => {
            let (rest_a, rest_b) = rest_of(a, b, class);
            lemma_diff_keeps_first_input(rest_a, rest_b, insensitive);
            assert(all.drop_first() =~= diff_spec(rest_a, rest_b, insensitive));
            if class != Classification::OnlyInB {
                assert(seq![a[0]] + a.drop_first() =~= a);
            }
        },
    }
}

/// The records that are not only in the first input stand for the lines of
/// the second, each once and in their order: they are compared by the same
/// values.
pub proof fn lemma_diff_keeps_second_input(
    a: Seq<Seq<char>>,
    b: Seq<Seq<char>>,
    insensitive: bool,
)
    ensures
        keys_of(values_outside(diff_spec(a, b, insensitive), Classification::OnlyInA), insensitive)
            == keys_of(b, insensitive),
    decreases a.len() + b.len(),
{
    lemma_diff_first_step(a, b, insensitive);
    let all = diff_spec(a, b, insensitive);
    let kept = values_outside(all, Classification::OnlyInA);
    match first_class(a, b, insensitive) {
        None => {
            assert(keys_of(kept, insensitive) =~= keys_of(b, insensitive));
        },
        Some(class) => {
            let (rest_a, rest_b) = rest_of(a, b, class);
            lemma_diff_keeps_second_input(rest_a, rest_b, insensitive);
            let rest = diff_spec(rest_a, rest_b, insensitive);
            let kept_rest = values_outside(rest, Classification::OnlyInA);
            assert(all.drop_first() =~= rest);
            if class != Classification::OnlyInA {
                assert(kept == seq![all[0].value] + kept_rest);
                assert(keys_of(kept, insensitive) =~= seq![key_of(b[0], insensitive)] + keys_of(
                    kept_rest,
                    insensitive,
                ));
                assert(keys_of(b, insensitive) =~= seq![key_of(b[0], insensitive)] + keys_of(
                    b.drop_first(),
                    insensitive,
                ));
            }
        },
    }
}

/// The records that classify every text of an input alike, in order.
pub open spec fn all_of(texts: Seq<Seq<char>>, class: Classification) -> Seq<RecordView> {
    Seq::new(texts.len(), |i: int| record(class, texts[i]))
}

/// Against an empty first input every line of the second is only in the
/// second, in its order.
pub proof fn lemma_diff_empty_first(b: Seq<Seq<char>>, insensitive: bool)
    ensures
        diff_spec(Seq::empty(), b, insensitive) == all_of(b, Classification::OnlyInB),
    decreases b.len(),
{
    let a = Seq::<Seq<char>>::empty();
    lemma_diff_first_step(a, b, insensitive);
    if b.len() > 0 {
        lemma_diff_empty_first(b.drop_first(), insensitive);
    }
    assert(diff_spec(a, b, insensitive) =~= all_of(b, Classification::OnlyInB));
}

/// Against an empty second input every line of the first is only in the
/// first, in its order.
pub proof fn lemma_diff_empty_second(a: Seq<Seq<char>>, insensitive: bool)
    ensures
        diff_spec(a, Seq::empty(), insensitive) == all_of(a, Classification::OnlyInA),
    decreases a.len(),
{
    let b = Seq::<Seq<char>>::empty();
    lemma_diff_first_step(a, b, insensitive);
    if a.len() > 0 {
        lemma_diff_empty_second(a.drop_first(), insensitive);
    }
    assert(diff_spec(a, b, insensitive) =~= all_of(a, Classification::OnlyInA));
}

/// Two empty inputs give no record.
pub proof fn lemma_diff_both_empty(insensitive: bool)
    ensures
        diff_spec(Seq::empty(), Seq::empty(), insensitive) == Seq::<RecordView>::empty(),
{
    lemma_diff_first_step(Seq::empty(), Seq::empty(), insensitive);
}

/// One line against one line: where the two are compared by the same value
/// they give one record in both, with the first input's spelling; else one
/// record each, the lesser first.
pub proof fn lemma_diff_one_line_each(x: Seq<char>, y: Seq<char>, insensitive: bool)
    ensures
        diff_spec(seq![x], seq![y], insensitive) == (if key_of(x, insensitive) == key_of(
            y,
            insensitive,
        ) {
            seq![record(Classification::InBoth, x)]
        } else if lex_lt(key_of(x, insensitive), key_of(y, insensitive)) {
            seq![record(Classification::OnlyInA, x), record(Classification::OnlyInB, y)]
        } else {
            seq![record(Classification::OnlyInB, y), record(Classification::OnlyInA, x)]
        }),
{
    let a = seq![x];
    let b = seq![y];
    let none = Seq::<Seq<char>>::empty();
    lemma_diff_first_step(a, b, insensitive);
    assert(a.drop_first() =~= none);
    assert(b.drop_first() =~= none);
    lemma_diff_empty_first(b, insensitive);
    lemma_diff_empty_second(a, insensitive);
    lemma_diff_both_empty(insensitive);
    lemma_lex_lt_irreflexive(key_of(x, insensitive));
    if lex_lt(key_of(x, insensitive), key_of(y, insensitive)) {
        lemma_lex_lt_asymmetric(key_of(x, insensitive), key_of(y, insensitive));
    }
    assert(diff_spec(a, b, insensitive) =~= (if key_of(x, insensitive) == key_of(
        y,
        insensitive,
    ) {
        seq![record(Classification::InBoth, x)]
    } else if lex_lt(key_of(x, insensitive), key_of(y, insensitive)) {
        seq![record(Classification::OnlyInA, x), record(Classification::OnlyInB, y)]
    } else {
        seq![record(Classification::OnlyInB, y), record(Classification::OnlyInA, x)]
    }));
}

/// The output line of a record depends on the delimiter, on whether the
/// record's own column is shown and, where it is, on which columns to its
/// left are shown: on nothing else.
pub proof fn lemma_format_ignores_other_columns(record: RecordView, c1: Config, c2: Config)
    requires
        c1.delimiter@ == c2.delimiter@,
        c1.shows(record.class) == c2.shows(record.class),
        c1.shows(record.class) && record.class != Classification::OnlyInA ==> c1.show_col1
            == c2.show_col1,
        c1.shows(record.class) && record.class == Classification::InBoth ==> c1.show_col2
            == c2.show_col2,
    ensures
        format_spec(record, c1) == format_spec(record, c2),
{
    assert(fields(record, c1) =~= fields(record, c2));
}

/// A configuration with the first column hidden and all else kept.
pub open spec fn without_first_column(config: Config) -> Config {
    Config { show_col1: false, ..config }
}

/// Hiding the first column leaves the lines of the other two columns as they
/// are, but for the one leading delimiter that stood for the first column.
pub proof fn lemma_hiding_first_column(record: RecordView, config: Config)
    requires
        record.class != Classification::OnlyInA,
    ensures
        format_spec(record, without_first_column(config)) is Some <==> format_spec(
            record,
            config,
        ) is Some,
        format_spec(record, config) is Some ==> format_spec(record, config)->0 == (if config.show_col1 {
            config.delimiter@
        } else {
            Seq::<char>::empty()
        }) + format_spec(record, without_first_column(config))->0,
{
    let hidden = without_first_column(config);
    if config.shows(record.class) {
        let shorter = fields(record, hidden);
        let longer = fields(record, config);
        let empty = Seq::<char>::empty();
        if config.show_col1 {
            assert(longer.drop_first() =~= shorter);
            assert(longer[0] == empty);
            assert(join(longer, config.delimiter@) =~= config.delimiter@ + join(
                shorter,
                config.delimiter@,
            ));
        } else {
            assert(longer =~= shorter);
            assert(empty + join(shorter, config.delimiter@) =~= join(shorter, config.delimiter@));
        }
    }
}

} // verus!
