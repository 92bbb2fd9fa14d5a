//! What the runs are for, as dialogs: which questions a run puts from its start to its end, and
//! what comes of the answers.

use crate::detail::{closed_detail, next_url, one_page_on, DetailState};
use crate::dialog::{ask_ready, fits, AnswerView, Outcome, Progress, QuestionView};
use crate::item::{field_of, read_item, read_items, resolved, ReadingView};
use crate::item_laws::{
    absolute_lines, in_turn, is_set, law_items_are_read_in_turn, lemma_absolute, lemma_field_there,
    those_there,
};
use crate::laws::law_trimmed_text_stays;
use crate::model::{
    empty_summary, DetailPageView, Place, ReviewError, ReviewItemView, ReviewRule, SummaryView,
};
use crate::page_run::{opened, PageSetup, PageState, PageView};
use crate::plays::{answers_of, lemma_one, lemma_ready, lemma_silent, lemma_then, plays, Line};
use crate::replies::{closed_replies, replies_after_all, replies_progress};
use crate::summary::{
    counted, key_of, number_of, read_entry, with_entry, EntryView, SummarySetup,
    SummaryState,
};
use crate::text::{decimal, i64_of, is_blank, trimmed};
use crate::vars::rule_vars;
use crate::whole::{
    law_detail_is_what_its_parts_give, law_detail_uses_each_answer, law_fresh_detail_is_settled,
    law_fresh_page_is_settled, law_fresh_summary_is_settled,
    law_replies_are_what_their_parts_give, law_replies_use_each_answer,
    law_summary_is_what_its_parts_give, law_summary_uses_each_answer, read_entries, whole_detail,
    whole_page, whole_summary,
};
use vstd::prelude::*;

verus! {

/// What is asked about a text that is to be a number: how it reads as a floating-point number,
/// where it is no integer.
pub open spec fn number_lines(text: Seq<char>, float: Option<i64>) -> Seq<Line> {
    if i64_of(text) is Some {
        Seq::empty()
    } else {
        seq![(QuestionView::ReadFloat(text), AnswerView::Number(float))]
    }
}

/// The number that a text is: the integer, else the floating-point number cut to a whole one.
spec fn number_read(text: Seq<char>, float: Option<i64>) -> Option<i64> {
    if i64_of(text) is Some {
        i64_of(text)
    } else {
        float
    }
}

proof fn lemma_number_of(text: Seq<char>, float: Option<i64>)
    ensures
        plays(
            |a: Seq<AnswerView>| number_of(text, a),
            number_lines(trimmed(text), float),
            number_read(trimmed(text), float),
        ),
{
    let part = |a: Seq<AnswerView>| number_of(text, a);
    if i64_of(trimmed(text)) is Some {
        lemma_silent(part, i64_of(trimmed(text)));
    } else {
        lemma_one(
            part,
            QuestionView::ReadFloat(trimmed(text)),
            AnswerView::Number(float),
            float,
        );
    }
}

/// What is found of an entry of a summary.
pub struct EntryFinds {
    pub index: Seq<char>,
    pub index_float: Option<i64>,
    pub count: Seq<char>,
    pub count_float: Option<i64>,
    pub data: Seq<char>,
}

/// The paragraph of the entry at position `position` of the list: the number that the index rule
/// finds, else the position counted from one.
spec fn paragraph_of(position: int, finds: EntryFinds) -> i64 {
    match number_read(trimmed(finds.index), finds.index_float) {
        Some(n) => n,
        None => (position + 1) as i64,
    }
}

/// The reviews that an entry counts: the number that the count rule finds, else none.
spec fn count_of(finds: EntryFinds) -> i64 {
    match number_read(trimmed(finds.count), finds.count_float) {
        Some(n) => n,
        None => 0,
    }
}

/// The data of an entry: what the data rule finds where there is one and it finds anything, else
/// the text of the index where there is any, else the paragraph written down.
spec fn data_of(setup: SummarySetup, position: int, finds: EntryFinds) -> Seq<char> {
    if setup.data_rule is Some && !is_blank(finds.data) {
        trimmed(finds.data)
    } else if !is_blank(finds.index) {
        trimmed(finds.index)
    } else {
        decimal(paragraph_of(position, finds) as int)
    }
}

/// What is asked about an entry: with variables of its own, its index; its count, unless it is for
/// paragraph zero; and its data, where there is a rule for it and the entry counts reviews.
spec fn entry_lines(
    setup: SummarySetup,
    position: int,
    item: Seq<char>,
    finds: EntryFinds,
) -> Seq<Line> {
    let start = seq![
        (QuestionView::ForkVars { level: 1 }, AnswerView::Ready),
        (
            QuestionView::Field { level: 1, rule: setup.index_rule@, text: item },
            AnswerView::Text(finds.index),
        ),
    ] + number_lines(trimmed(finds.index), finds.index_float);
    let count = seq![
        (
            QuestionView::Field { level: 1, rule: setup.count_rule@, text: item },
            AnswerView::Text(finds.count),
        ),
    ] + number_lines(trimmed(finds.count), finds.count_float);
    let data = match setup.data_rule {
        Some(rule) => seq![
            (
                QuestionView::Field { level: 1, rule: rule@, text: item },
                AnswerView::Text(finds.data),
            ),
        ],
        None => Seq::empty(),
    };
    if paragraph_of(position, finds) == 0 {
        start
    } else if count_of(finds) <= 0 {
        start + count
    } else {
        start + (count + data)
    }
}

proof fn lemma_counted(
    setup: SummarySetup,
    position: int,
    item: Seq<char>,
    finds: EntryFinds,
)
    ensures
        ({
            let paragraph = paragraph_of(position, finds);
            let count = count_of(finds);
            let counting = seq![
                (
                    QuestionView::Field { level: 1, rule: setup.count_rule@, text: item },
                    AnswerView::Text(finds.count),
                ),
            ] + number_lines(trimmed(finds.count), finds.count_float);
            let data = match setup.data_rule {
                Some(rule) => seq![
                    (
                        QuestionView::Field { level: 1, rule: rule@, text: item },
                        AnswerView::Text(finds.data),
                    ),
                ],
                None => Seq::empty(),
            };
            plays(
                |a: Seq<AnswerView>| counted(setup, item, trimmed(finds.index), paragraph, a),
                if count <= 0 {
                    counting
                } else {
                    counting + data
                },
                if count <= 0 {
                    None
                } else {
                    Some(EntryView { paragraph, count, key: data_of(setup, position, finds) })
                },
            )
        }),
{
    reveal(counted);
    let none = Seq::<Line>::empty();
    let index_text = trimmed(finds.index);
    let paragraph = paragraph_of(position, finds);
    let count = count_of(finds);
    let text = trimmed(finds.count);
    let number = number_read(text, finds.count_float);
    law_trimmed_text_stays(finds.count);
    law_trimmed_text_stays(finds.index);
    let count_line = seq![
        (
            QuestionView::Field { level: 1, rule: setup.count_rule@, text: item },
            AnswerView::Text(finds.count),
        ),
    ];
    let number_line = number_lines(text, finds.count_float);
    let data = match setup.data_rule {
        Some(rule) => seq![
            (
                QuestionView::Field { level: 1, rule: rule@, text: item },
                AnswerView::Text(finds.data),
            ),
        ],
        None => none,
    };
    let end = if count <= 0 {
        None
    } else {
        Some(EntryView { paragraph, count, key: data_of(setup, position, finds) })
    };
    let rest_lines = if count <= 0 {
        none
    } else {
        data
    };
    let from_number = |n: Option<i64>, rest: Seq<AnswerView>|
        {
            let count = match n {
                Some(n) => n,
                None => 0,
            };
            if count <= 0 {
                Outcome::Done(None, rest)
            } else {
                key_of(setup, item, index_text, paragraph, rest).then_with(
                    |key: Seq<char>, rest: Seq<AnswerView>|
                        Outcome::Done(Some(EntryView { paragraph, count, key }), rest),
                )
            }
        };
    let ended = |a: Seq<AnswerView>| from_number(number, a);
    if count <= 0 {
        lemma_silent(ended, None);
    } else {
        let key = data_of(setup, position, finds);
        let keyed = |a: Seq<AnswerView>| key_of(setup, item, index_text, paragraph, a);
        let given = |a: Seq<AnswerView>| Outcome::Done(key, a);
        lemma_silent(given, key);
        match setup.data_rule {
            Some(rule) => {
                lemma_field_there(rule@, 1, item, finds.data);
                lemma_then(
                    |a: Seq<AnswerView>| field_of(item, Some(rule@), 1, a),
                    data,
                    trimmed(finds.data),
                    given,
                    none,
                    key,
                    keyed,
                );
                assert(data + none =~= data);
            },
            None => {
                reveal(field_of);
                lemma_silent(keyed, key);
            },
        }
        let closing = |a: Seq<AnswerView>| Outcome::Done(end, a);
        lemma_silent(closing, end);
        lemma_then(keyed, data, key, closing, none, end, ended);
        assert(data + none =~= data);
    }
    let numbered = |a: Seq<AnswerView>| number_of(text, a).then_with(from_number);
    lemma_number_of(text, finds.count_float);
    lemma_then(
        |a: Seq<AnswerView>| number_of(text, a),
        number_line,
        number,
        ended,
        rest_lines,
        end,
        numbered,
    );
    lemma_field_there(setup.count_rule@, 1, item, finds.count);
    lemma_then(
        |a: Seq<AnswerView>| field_of(item, Some(setup.count_rule@), 1, a),
        count_line,
        text,
        numbered,
        number_line + rest_lines,
        end,
        |a: Seq<AnswerView>| counted(setup, item, index_text, paragraph, a),
    );
    assert(count_line + (number_line + none) =~= count_line + number_line);
    assert(count_line + (number_line + data) =~= count_line + number_line + data);
}

proof fn lemma_entry_is_read(
    setup: SummarySetup,
    position: int,
    item: Seq<char>,
    finds: EntryFinds,
)
    ensures
        plays(
            |a: Seq<AnswerView>| read_entry(setup, position, item, a),
            entry_lines(setup, position, item, finds),
            if paragraph_of(position, finds) != 0 && count_of(finds) > 0 {
                Some(
                    EntryView {
                        paragraph: paragraph_of(position, finds),
                        count: count_of(finds),
                        key: data_of(setup, position, finds),
                    },
                )
            } else {
                None
            },
        ),
{
    reveal(read_entry);
    let none = Seq::<Line>::empty();
    let fork = QuestionView::ForkVars { level: 1 };
    let fork_line = seq![(fork, AnswerView::Ready)];
    let index_text = trimmed(finds.index);
    law_trimmed_text_stays(finds.index);
    let index_line = seq![
        (
            QuestionView::Field { level: 1, rule: setup.index_rule@, text: item },
            AnswerView::Text(finds.index),
        ),
    ];
    let number = number_read(index_text, finds.index_float);
    let number_line = number_lines(index_text, finds.index_float);
    let paragraph = paragraph_of(position, finds);
    let end = if paragraph != 0 && count_of(finds) > 0 {
        Some(
            EntryView {
                paragraph,
                count: count_of(finds),
                key: data_of(setup, position, finds),
            },
        )
    } else {
        None
    };
    let counting = seq![
        (
            QuestionView::Field { level: 1, rule: setup.count_rule@, text: item },
            AnswerView::Text(finds.count),
        ),
    ] + number_lines(trimmed(finds.count), finds.count_float);
    let data = match setup.data_rule {
        Some(rule) => seq![
            (
                QuestionView::Field { level: 1, rule: rule@, text: item },
                AnswerView::Text(finds.data),
            ),
        ],
        None => none,
    };
    let rest_lines = if paragraph == 0 {
        none
    } else if count_of(finds) <= 0 {
        counting
    } else {
        counting + data
    };
    let ended = |a: Seq<AnswerView>|
        if paragraph == 0 {
            Outcome::Done(None, a)
        } else {
            counted(setup, item, index_text, paragraph, a)
        };
    if paragraph == 0 {
        lemma_silent(ended, None);
    } else {
        lemma_counted(setup, position, item, finds);
        let nothing = |a: Seq<AnswerView>| Outcome::Done((), a);
        lemma_silent(nothing, ());
        lemma_then(
            nothing,
            none,
            (),
            |a: Seq<AnswerView>| counted(setup, item, index_text, paragraph, a),
            rest_lines,
            end,
            ended,
        );
        assert(none + rest_lines =~= rest_lines);
    }
    let numbered = |a: Seq<AnswerView>|
        number_of(index_text, a).then_with(
            |number: Option<i64>, rest: Seq<AnswerView>|
                {
                    let paragraph = match number {
                        Some(n) => n,
                        None => (position + 1) as i64,
                    };
                    if paragraph == 0 {
                        Outcome::Done(None, rest)
                    } else {
                        counted(setup, item, index_text, paragraph, rest)
                    }
                },
        );
    let indexed = |a: Seq<AnswerView>|
        field_of(item, Some(setup.index_rule@), 1, a).then_with(
            |index_text: Seq<char>, rest: Seq<AnswerView>|
                number_of(index_text, rest).then_with(
                    |number: Option<i64>, rest: Seq<AnswerView>|
                        {
                            let paragraph = match number {
                                Some(n) => n,
                                None => (position + 1) as i64,
                            };
                            if paragraph == 0 {
                                Outcome::Done(None, rest)
                            } else {
                                counted(setup, item, index_text, paragraph, rest)
                            }
                        },
                ),
        );
    lemma_number_of(index_text, finds.index_float);
    lemma_then(
        |a: Seq<AnswerView>| number_of(index_text, a),
        number_line,
        number,
        ended,
        rest_lines,
        end,
        numbered,
    );
    lemma_field_there(setup.index_rule@, 1, item, finds.index);
    lemma_then(
        |a: Seq<AnswerView>| field_of(item, Some(setup.index_rule@), 1, a),
        index_line,
        index_text,
        numbered,
        number_line + rest_lines,
        end,
        indexed,
    );
    lemma_ready(fork);
    lemma_then(
        |a: Seq<AnswerView>| ask_ready(a, fork),
        fork_line,
        (),
        indexed,
        index_line + (number_line + rest_lines),
        end,
        |a: Seq<AnswerView>| read_entry(setup, position, item, a),
    );
    assert(fork_line + (index_line + (number_line + rest_lines)) =~= entry_lines(
        setup,
        position,
        item,
        finds,
    ));
}

/// How an entry of a summary is read: with variables of its own, its index; its count, unless it is
/// for paragraph zero; and its data, where there is a rule for it and the entry counts reviews. The
/// paragraph is the number that the index rule finds, else the position counted from one. An entry
/// that is not for paragraph zero and counts reviews is in the summary, with its count, whether or
/// not there is a rule for the data; no other is. The data is what the rule finds where it finds
/// anything, else the text of the index where there is any, else the paragraph written down.
pub proof fn law_entry_is_read(
    setup: SummarySetup,
    position: int,
    item: Seq<char>,
    finds: EntryFinds,
    paragraph: i64,
    count: i64,
    key: Seq<char>,
)
    requires
        i64_of(trimmed(finds.index)) matches Some(n) ==> paragraph == n,
        i64_of(trimmed(finds.index)) is None && finds.index_float is Some ==> paragraph
            == finds.index_float->0,
        i64_of(trimmed(finds.index)) is None && finds.index_float is None ==> paragraph == (position
            + 1) as i64,
        i64_of(trimmed(finds.count)) matches Some(n) ==> count == n,
        i64_of(trimmed(finds.count)) is None && finds.count_float is Some ==> count
            == finds.count_float->0,
        i64_of(trimmed(finds.count)) is None && finds.count_float is None ==> count == 0,
        setup.data_rule is Some && !is_blank(finds.data) ==> key == trimmed(finds.data),
        (setup.data_rule is None || is_blank(finds.data)) && !is_blank(finds.index) ==> key
            == trimmed(finds.index),
        (setup.data_rule is None || is_blank(finds.data)) && is_blank(finds.index) ==> key
            == decimal(paragraph as int),
    ensures
        paragraph == 0 ==> plays(
            |a: Seq<AnswerView>| read_entry(setup, position, item, a),
            seq![
                (QuestionView::ForkVars { level: 1 }, AnswerView::Ready),
                (
                    QuestionView::Field { level: 1, rule: setup.index_rule@, text: item },
                    AnswerView::Text(finds.index),
                ),
            ] + number_lines(trimmed(finds.index), finds.index_float),
            None,
        ),
        paragraph != 0 && count <= 0 ==> plays(
            |a: Seq<AnswerView>| read_entry(setup, position, item, a),
            seq![
                (QuestionView::ForkVars { level: 1 }, AnswerView::Ready),
                (
                    QuestionView::Field { level: 1, rule: setup.index_rule@, text: item },
                    AnswerView::Text(finds.index),
                ),
            ] + number_lines(trimmed(finds.index), finds.index_float) + (seq![
                (
                    QuestionView::Field { level: 1, rule: setup.count_rule@, text: item },
                    AnswerView::Text(finds.count),
                ),
            ] + number_lines(trimmed(finds.count), finds.count_float)),
            None,
        ),
        paragraph != 0 && count > 0 && setup.data_rule is None ==> plays(
            |a: Seq<AnswerView>| read_entry(setup, position, item, a),
            seq![
                (QuestionView::ForkVars { level: 1 }, AnswerView::Ready),
                (
                    QuestionView::Field { level: 1, rule: setup.index_rule@, text: item },
                    AnswerView::Text(finds.index),
                ),
            ] + number_lines(trimmed(finds.index), finds.index_float) + (seq![
                (
                    QuestionView::Field { level: 1, rule: setup.count_rule@, text: item },
                    AnswerView::Text(finds.count),
                ),
            ] + number_lines(trimmed(finds.count), finds.count_float)),
            Some(EntryView { paragraph, count, key }),
        ),
        paragraph != 0 && count > 0 && setup.data_rule is Some ==> plays(
            |a: Seq<AnswerView>| read_entry(setup, position, item, a),
            seq![
                (QuestionView::ForkVars { level: 1 }, AnswerView::Ready),
                (
                    QuestionView::Field { level: 1, rule: setup.index_rule@, text: item },
                    AnswerView::Text(finds.index),
                ),
            ] + number_lines(trimmed(finds.index), finds.index_float) + (seq![
                (
                    QuestionView::Field { level: 1, rule: setup.count_rule@, text: item },
                    AnswerView::Text(finds.count),
                ),
            ] + number_lines(trimmed(finds.count), finds.count_float) + seq![
                (
                    QuestionView::Field { level: 1, rule: setup.data_rule->0@, text: item },
                    AnswerView::Text(finds.data),
                ),
            ]),
            Some(EntryView { paragraph, count, key }),
        ),
{
    lemma_entry_is_read(setup, position, item, finds);
    assert(paragraph == paragraph_of(position, finds));
    assert(count == count_of(finds));
    assert(key == data_of(setup, position, finds));
    let counting = seq![
        (
            QuestionView::Field { level: 1, rule: setup.count_rule@, text: item },
            AnswerView::Text(finds.count),
        ),
    ] + number_lines(trimmed(finds.count), finds.count_float);
    assert(counting + Seq::<Line>::empty() =~= counting);
}

/// The last of the entries for a paragraph.
pub open spec fn last_for(entries: Seq<Option<EntryView>>, paragraph: i64) -> Option<EntryView>
    decreases entries.len(),
{
    if entries.len() == 0 {
        None
    } else {
        match entries.last() {
            Some(entry) if entry.paragraph == paragraph => Some(entry),
            _ => last_for(entries.drop_last(), paragraph),
        }
    }
}

proof fn lemma_last_for(
    first: Option<EntryView>,
    entries: Seq<Option<EntryView>>,
    paragraph: i64,
)
    ensures
        last_for(seq![first] + entries, paragraph) == (match last_for(entries, paragraph) {
            Some(entry) => Some(entry),
            None => match first {
                Some(entry) if entry.paragraph == paragraph => Some(entry),
                _ => None,
            },
        }),
    decreases entries.len(),
{
    let all = seq![first] + entries;
    if entries.len() == 0 {
        assert(all.last() == first);
        assert(all.drop_last() =~= Seq::empty());
        assert(last_for(all.drop_last(), paragraph) is None);
    } else {
        assert(all.last() == entries.last());
        assert(all.drop_last() =~= seq![first] + entries.drop_last());
        lemma_last_for(first, entries.drop_last(), paragraph);
    }
}

/// Is this what the entries make of a summary? For each paragraph it has the count and the data of
/// the last entry for it, or, where there is none, what it had before.
pub open spec fn is_summed(
    before: SummaryView,
    entries: Seq<Option<EntryView>>,
    after: SummaryView,
) -> bool {
    forall|paragraph: i64|
        match #[trigger] last_for(entries, paragraph) {
            Some(entry) => {
                &&& after.counts.dom().contains(paragraph)
                &&& after.keys.dom().contains(paragraph)
                &&& after.counts[paragraph] == entry.count
                &&& after.keys[paragraph] == entry.key
            },
            None => {
                &&& after.counts.dom().contains(paragraph) == before.counts.dom().contains(
                    paragraph,
                )
                &&& after.keys.dom().contains(paragraph) == before.keys.dom().contains(paragraph)
                &&& after.counts.dom().contains(paragraph) ==> after.counts[paragraph]
                    == before.counts[paragraph]
                &&& after.keys.dom().contains(paragraph) ==> after.keys[paragraph]
                    == before.keys[paragraph]
            },
        }
}

/// How the entries of a summary are read: one by one, in their order, a later one for a paragraph
/// in place of an earlier one.
pub proof fn law_entries_are_read_in_turn(
    setup: SummarySetup,
    position: int,
    texts: Seq<Seq<char>>,
    before: SummaryView,
    dialogs: Seq<Seq<Line>>,
    entries: Seq<Option<EntryView>>,
) -> (after: SummaryView)
    requires
        dialogs.len() == texts.len(),
        entries.len() == texts.len(),
        forall|i: int|
            0 <= i < texts.len() ==> plays(
                |a: Seq<AnswerView>| read_entry(setup, position + i, #[trigger] texts[i], a),
                dialogs[i],
                entries[i],
            ),
    ensures
        is_summed(before, entries, after),
        plays(
            |a: Seq<AnswerView>| read_entries(setup, position, texts, before, a),
            in_turn(dialogs),
            after,
        ),
    decreases texts.len(),
{
    let whole = |a: Seq<AnswerView>| read_entries(setup, position, texts, before, a);
    if texts.len() == 0 {
        lemma_silent(whole, before);
        before
    } else {
        let (t, d, r) = (texts.drop_first(), dialogs.drop_first(), entries.drop_first());
        let entry = entries[0];
        let longer = with_entry(before, entry);
        assert forall|i: int| 0 <= i < t.len() implies plays(
            |a: Seq<AnswerView>| read_entry(setup, position + 1 + i, #[trigger] t[i], a),
            d[i],
            r[i],
        ) by {
            assert(t[i] == texts[i + 1]);
            assert(plays(
                |a: Seq<AnswerView>| read_entry(setup, position + (i + 1), texts[i + 1], a),
                dialogs[i + 1],
                entries[i + 1],
            ));
            assert(position + 1 + i == position + (i + 1));
        }
        let after = law_entries_are_read_in_turn(setup, position + 1, t, longer, d, r);
        assert(plays(
            |a: Seq<AnswerView>| read_entry(setup, position + 0, texts[0], a),
            dialogs[0],
            entries[0],
        ));
        lemma_then(
            |a: Seq<AnswerView>| read_entry(setup, position + 0, texts[0], a),
            dialogs[0],
            entry,
            |a: Seq<AnswerView>| read_entries(setup, position + 1, t, longer, a),
            in_turn(d),
            after,
            whole,
        );
        assert(seq![entry] + r =~= entries);
        assert forall|paragraph: i64|
            #![trigger last_for(entries, paragraph)]
            match last_for(entries, paragraph) {
                Some(entry) => {
                    &&& after.counts.dom().contains(paragraph)
                    &&& after.keys.dom().contains(paragraph)
                    &&& after.counts[paragraph] == entry.count
                    &&& after.keys[paragraph] == entry.key
                },
                None => {
                    &&& after.counts.dom().contains(paragraph) == before.counts.dom().contains(
                        paragraph,
                    )
                    &&& after.keys.dom().contains(paragraph) == before.keys.dom().contains(
                        paragraph,
                    )
                    &&& after.counts.dom().contains(paragraph) ==> after.counts[paragraph]
                        == before.counts[paragraph]
                    &&& after.keys.dom().contains(paragraph) ==> after.keys[paragraph]
                        == before.keys[paragraph]
                },
            } by {
            lemma_last_for(entry, r, paragraph);
            let _ = last_for(r, paragraph);
        }
        after
    }
}

/// How a summary is asked for: its page, of which `opening` is the dialog, and then the entries
/// that the page lists.
pub proof fn law_summary_is_asked_for(
    setup: SummarySetup,
    opening: Seq<Line>,
    page: PageView,
    dialogs: Seq<Seq<Line>>,
    entries: Seq<Option<EntryView>>,
) -> (summary: SummaryView)
    requires
        plays(
            |a: Seq<AnswerView>|
                opened(*setup.source, setup.place, setup.url_rule@, setup.list_rule@, a),
            opening,
            page,
        ),
        dialogs.len() == page.texts.len(),
        entries.len() == page.texts.len(),
        forall|i: int|
            0 <= i < page.texts.len() ==> plays(
                |a: Seq<AnswerView>| read_entry(setup, i, #[trigger] page.texts[i], a),
                dialogs[i],
                entries[i],
            ),
    ensures
        forall|paragraph: i64|
            match #[trigger] last_for(entries, paragraph) {
                Some(entry) => {
                    &&& summary.counts.dom().contains(paragraph)
                    &&& summary.keys.dom().contains(paragraph)
                    &&& summary.counts[paragraph] == entry.count
                    &&& summary.keys[paragraph] == entry.key
                },
                None => {
                    &&& !summary.counts.dom().contains(paragraph)
                    &&& !summary.keys.dom().contains(paragraph)
                },
            },
        plays(
            |a: Seq<AnswerView>| whole_summary(setup, a),
            opening + in_turn(dialogs),
            summary,
        ),
{
    assert forall|i: int| 0 <= i < page.texts.len() implies plays(
        |a: Seq<AnswerView>| read_entry(setup, 0 + i, #[trigger] page.texts[i], a),
        dialogs[i],
        entries[i],
    ) by {
        assert(plays(
            |a: Seq<AnswerView>| read_entry(setup, i, page.texts[i], a),
            dialogs[i],
            entries[i],
        ));
        assert(0 + i == i);
    }
    let summary = law_entries_are_read_in_turn(
        setup,
        0,
        page.texts,
        empty_summary(),
        dialogs,
        entries,
    );
    lemma_then(
        |a: Seq<AnswerView>|
            opened(*setup.source, setup.place, setup.url_rule@, setup.list_rule@, a),
        opening,
        page,
        |a: Seq<AnswerView>| read_entries(setup, 0, page.texts, empty_summary(), a),
        in_turn(dialogs),
        summary,
        |a: Seq<AnswerView>| whole_summary(setup, a),
    );
    summary
}

/// How the items of a page are read.
spec fn page_reading(setup: PageSetup, page: PageView) -> ReadingView {
    ReadingView {
        rule: *setup.rule,
        base_url: page.url,
        content_rule: setup.content_rule@,
        role: setup.role,
    }
}

/// How a page and its items are asked for: the page, of which `opening` is the dialog, and then the
/// items that the page lists, one by one: those of a page of reviews as reviews, those of a page of
/// replies as replies, with addresses made absolute against that of the response.
pub proof fn law_page_is_asked_for(
    setup: PageSetup,
    opening: Seq<Line>,
    page: PageView,
    dialogs: Seq<Seq<Line>>,
    items: Seq<Option<ReviewItemView>>,
)
    requires
        plays(
            |a: Seq<AnswerView>|
                opened(*setup.source, setup.place, setup.url_rule@, setup.list_rule@, a),
            opening,
            page,
        ),
        dialogs.len() == page.texts.len(),
        items.len() == page.texts.len(),
        forall|i: int|
            0 <= i < page.texts.len() ==> plays(
                |a: Seq<AnswerView>|
                    read_item(
                        ReadingView {
                            rule: *setup.rule,
                            base_url: page.url,
                            content_rule: setup.content_rule@,
                            role: setup.role,
                        },
                        #[trigger] page.texts[i],
                        a,
                    ),
                dialogs[i],
                items[i],
            ),
    ensures
        plays(
            |a: Seq<AnswerView>| whole_page(setup, a),
            opening + in_turn(dialogs),
            (page, those_there(items)),
        ),
{
    let reading = page_reading(setup, page);
    let none = Seq::<ReviewItemView>::empty();
    assert(PageState::fresh(setup).reading(page) == reading);
    law_items_are_read_in_turn(reading, page.texts, none, dialogs, items);
    assert(none + those_there(items) =~= those_there(items));
    let end = (page, those_there(items));
    let done = |a: Seq<AnswerView>| Outcome::Done(end, a);
    let read = |a: Seq<AnswerView>| read_items(reading, page.texts, none, a);
    let from_items = |a: Seq<AnswerView>|
        read_items(reading, page.texts, none, a).then_with(
            |items: Seq<ReviewItemView>, rest: Seq<AnswerView>| Outcome::Done((page, items), rest),
        );
    lemma_silent(done, end);
    lemma_then(
        read,
        in_turn(dialogs),
        those_there(items),
        done,
        Seq::empty(),
        end,
        from_items,
    );
    assert(in_turn(dialogs) + Seq::<Line>::empty() =~= in_turn(dialogs));
    lemma_then(
        |a: Seq<AnswerView>|
            opened(*setup.source, setup.place, setup.url_rule@, setup.list_rule@, a),
        opening,
        page,
        from_items,
        in_turn(dialogs),
        end,
        |a: Seq<AnswerView>| whole_page(setup, a),
    );
}

/// What is asked about the next page: where there is a rule for it, with variables one page on,
/// what the rule finds in the page's text, made absolute against the page's address.
spec fn next_lines(
    rule: ReviewRule,
    place: Place,
    page: PageView,
    found: Seq<char>,
    made: Seq<char>,
) -> Seq<Line> {
    if !is_set(rule.review_detail_next_page_url) {
        Seq::empty()
    } else {
        let on = Place { page: (place.page + 1) as u32, ..place };
        seq![
            (QuestionView::AssignVars(rule_vars(on, page.body)), AnswerView::Ready),
            (
                QuestionView::Field {
                    level: 0,
                    rule: rule.review_detail_next_page_url->0@,
                    text: page.body,
                },
                AnswerView::Text(found),
            ),
        ] + if is_blank(found) {
            Seq::empty()
        } else {
            seq![
                (
                    QuestionView::Resolve { url: trimmed(found), base: page.url },
                    AnswerView::Text(made),
                ),
            ]
        }
    }
}

proof fn lemma_next_page(
    rule: ReviewRule,
    place: Place,
    page: PageView,
    items: Seq<ReviewItemView>,
    found: Seq<char>,
    made: Seq<char>,
)
    requires
        page.texts.len() == 0 || items.len() > 0,
    ensures
        ({
            let more = is_set(rule.review_detail_next_page_url) && !is_blank(found) && made.len()
                > 0 && items.len() > 0;
            plays(
                |a: Seq<AnswerView>| closed_detail(rule, place, page, items, a),
                next_lines(rule, place, page, found, made),
                (DetailPageView {
                    items,
                    next_page_url: if more {
                        Some(made)
                    } else {
                        None
                    },
                    has_more: more,
                }),
            )
        }),
{
    reveal(next_url);
    let whole = |a: Seq<AnswerView>| closed_detail(rule, place, page, items, a);
    let more = is_set(rule.review_detail_next_page_url) && !is_blank(found) && made.len() > 0
        && items.len() > 0;
    let end = DetailPageView {
        items,
        next_page_url: if more {
            Some(made)
        } else {
            None
        },
        has_more: more,
    };
    let done = |a: Seq<AnswerView>| Outcome::Done(end, a);
    lemma_silent(done, end);
    let looked = |a: Seq<AnswerView>| next_url(rule, place, page, a);
    if !is_set(rule.review_detail_next_page_url) {
        lemma_silent(looked, None);
        lemma_then(looked, Seq::empty(), None, done, Seq::empty(), end, whole);
        assert(Seq::<Line>::empty() + Seq::<Line>::empty() =~= Seq::<Line>::empty());
    } else {
        let next_rule = rule.review_detail_next_page_url->0@;
        let on = one_page_on(place);
        let assign = QuestionView::AssignVars(rule_vars(on, page.body));
        let text = trimmed(found);
        law_trimmed_text_stays(found);
        let url = if is_blank(found) {
            None
        } else {
            Some(text)
        };
        let made_url = if is_blank(found) {
            None
        } else {
            Some(made)
        };
        assert(crate::content::some_text(text) == url);
        let assign_line = seq![(assign, AnswerView::Ready)];
        let field_line = seq![
            (
                QuestionView::Field { level: 0, rule: next_rule, text: page.body },
                AnswerView::Text(found),
            ),
        ];
        let made_lines = absolute_lines(url, page.url, made);
        let fielded = |a: Seq<AnswerView>|
            field_of(page.body, Some(next_rule), 0, a).then_with(
                |next: Seq<char>, rest: Seq<AnswerView>|
                    resolved(crate::content::some_text(next), page.url, rest),
            );
        lemma_absolute(url, page.url, made);
        lemma_field_there(next_rule, 0, page.body, found);
        lemma_then(
            |a: Seq<AnswerView>| field_of(page.body, Some(next_rule), 0, a),
            field_line,
            text,
            |a: Seq<AnswerView>| resolved(url, page.url, a),
            made_lines,
            made_url,
            fielded,
        );
        lemma_ready(assign);
        lemma_then(
            |a: Seq<AnswerView>| ask_ready(a, assign),
            assign_line,
            (),
            fielded,
            field_line + made_lines,
            made_url,
            looked,
        );
        lemma_then(
            looked,
            assign_line + (field_line + made_lines),
            made_url,
            done,
            Seq::empty(),
            end,
            whole,
        );
        assert(assign_line + (field_line + made_lines) + Seq::<Line>::empty() =~= next_lines(
            rule,
            place,
            page,
            found,
            made,
        ));
    }
}

/// How a page of reviews ends. Where there is a rule for the next page, it is looked for in the
/// page's text, with variables one page on, and what is found is made absolute against the page's
/// address. There are more, and the address is given, exactly where one is found that comes out not
/// empty and the page has reviews.
pub proof fn law_next_page_is_looked_for(
    rule: ReviewRule,
    place: Place,
    page: PageView,
    items: Seq<ReviewItemView>,
    found: Seq<char>,
    made: Seq<char>,
)
    requires
        page.texts.len() == 0 || items.len() > 0,
    ensures
        !is_set(rule.review_detail_next_page_url) ==> plays(
            |a: Seq<AnswerView>| closed_detail(rule, place, page, items, a),
            Seq::empty(),
            (DetailPageView { items, next_page_url: None, has_more: false }),
        ),
        is_set(rule.review_detail_next_page_url) && is_blank(found) ==> plays(
            |a: Seq<AnswerView>| closed_detail(rule, place, page, items, a),
            seq![
                (
                    QuestionView::AssignVars(
                        rule_vars(Place { page: (place.page + 1) as u32, ..place }, page.body),
                    ),
                    AnswerView::Ready,
                ),
                (
                    QuestionView::Field {
                        level: 0,
                        rule: rule.review_detail_next_page_url->0@,
                        text: page.body,
                    },
                    AnswerView::Text(found),
                ),
            ],
            (DetailPageView { items, next_page_url: None, has_more: false }),
        ),
        is_set(rule.review_detail_next_page_url) && !is_blank(found) && (made.len() == 0
            || items.len() == 0) ==> plays(
            |a: Seq<AnswerView>| closed_detail(rule, place, page, items, a),
            seq![
                (
                    QuestionView::AssignVars(
                        rule_vars(Place { page: (place.page + 1) as u32, ..place }, page.body),
                    ),
                    AnswerView::Ready,
                ),
                (
                    QuestionView::Field {
                        level: 0,
                        rule: rule.review_detail_next_page_url->0@,
                        text: page.body,
                    },
                    AnswerView::Text(found),
                ),
                (
                    QuestionView::Resolve { url: trimmed(found), base: page.url },
                    AnswerView::Text(made),
                ),
            ],
            (DetailPageView { items, next_page_url: None, has_more: false }),
        ),
        is_set(rule.review_detail_next_page_url) && !is_blank(found) && made.len() > 0
            && items.len() > 0 ==> plays(
            |a: Seq<AnswerView>| closed_detail(rule, place, page, items, a),
            seq![
                (
                    QuestionView::AssignVars(
                        rule_vars(Place { page: (place.page + 1) as u32, ..place }, page.body),
                    ),
                    AnswerView::Ready,
                ),
                (
                    QuestionView::Field {
                        level: 0,
                        rule: rule.review_detail_next_page_url->0@,
                        text: page.body,
                    },
                    AnswerView::Text(found),
                ),
                (
                    QuestionView::Resolve { url: trimmed(found), base: page.url },
                    AnswerView::Text(made),
                ),
            ],
            (DetailPageView { items, next_page_url: Some(made), has_more: true }),
        ),
{
    lemma_next_page(rule, place, page, items, found, made);
    if is_set(rule.review_detail_next_page_url) {
        let assign = (
            QuestionView::AssignVars(
                rule_vars(Place { page: (place.page + 1) as u32, ..place }, page.body),
            ),
            AnswerView::Ready,
        );
        let field = (
            QuestionView::Field {
                level: 0,
                rule: rule.review_detail_next_page_url->0@,
                text: page.body,
            },
            AnswerView::Text(found),
        );
        let resolve = (
            QuestionView::Resolve { url: trimmed(found), base: page.url },
            AnswerView::Text(made),
        );
        if is_blank(found) {
            assert(next_lines(rule, place, page, found, made) =~= seq![assign, field]);
        } else {
            assert(next_lines(rule, place, page, found, made) =~= seq![assign, field, resolve]);
        }
    }
}

/// A page of reviews or of replies that lists any, of which none can be read, is a failure. It is
/// none where the page lists nothing.
pub proof fn law_page_without_readable_items(
    rule: ReviewRule,
    place: Place,
    page: PageView,
    items: Seq<ReviewItemView>,
    answers: Seq<AnswerView>,
)
    ensures
        page.texts.len() > 0 && items.len() == 0 <==> closed_detail(
            rule,
            place,
            page,
            items,
            answers,
        ) == Outcome::<DetailPageView>::Fail(ReviewError::DetailUnreadable),
        page.texts.len() > 0 && items.len() == 0 <==> closed_replies(place.page, page, items)
            == Progress::<DetailPageView>::Fail(ReviewError::ReplyUnreadable),
{
    reveal(next_url);
    reveal(field_of);
    reveal(resolved);
}

/// How a page of reviews is asked for, from the request to its end.
pub proof fn law_reviews_are_asked_for(
    setup: PageSetup,
    opening: Seq<Line>,
    page: PageView,
    dialogs: Seq<Seq<Line>>,
    items: Seq<Option<ReviewItemView>>,
    closing: Seq<Line>,
    detail: DetailPageView,
)
    requires
        plays(
            |a: Seq<AnswerView>| whole_page(setup, a),
            opening + in_turn(dialogs),
            (page, those_there(items)),
        ),
        plays(
            |a: Seq<AnswerView>|
                closed_detail(*setup.rule, setup.place, page, those_there(items), a),
            closing,
            detail,
        ),
    ensures
        plays(
            |a: Seq<AnswerView>| whole_detail(setup, a),
            opening + in_turn(dialogs) + closing,
            detail,
        ),
{
    lemma_then(
        |a: Seq<AnswerView>| whole_page(setup, a),
        opening + in_turn(dialogs),
        (page, those_there(items)),
        |a: Seq<AnswerView>| closed_detail(*setup.rule, setup.place, page, those_there(items), a),
        closing,
        detail,
        |a: Seq<AnswerView>| whole_detail(setup, a),
    );
}

proof fn lemma_detail_run(start: DetailState, lines: Seq<Line>, detail: DetailPageView, k: int)
    requires
        start.page == PageState::fresh(start.page.setup),
        start.tail.len() == 0,
        plays(|a: Seq<AnswerView>| whole_detail(start.page.setup, a), lines, detail),
        0 <= k <= lines.len(),
    ensures
        ({
            let state = start.after_all(answers_of(lines.take(k)));
            &&& state.settled()
            &&& state.page.setup == start.page.setup
            &&& state.told() == answers_of(lines.take(k))
            &&& k < lines.len() ==> state.progress() == Progress::<DetailPageView>::Ask(
                lines[k].0,
            )
            &&& k == lines.len() ==> state.progress() == Progress::Done(detail)
        }),
    decreases k,
{
    let part = |a: Seq<AnswerView>| whole_detail(start.page.setup, a);
    let answers = answers_of(lines.take(k));
    let state = start.after_all(answers);
    if k == 0 {
        law_fresh_detail_is_settled(start);
        assert(start.told() =~= answers);
    } else {
        let before = start.after_all(answers_of(lines.take(k - 1)));
        lemma_detail_run(start, lines, detail, k - 1);
        assert(answers.drop_last() =~= answers_of(lines.take(k - 1)));
        assert(answers.last() == lines[k - 1].1);
        assert(fits(lines[k - 1].0, lines[k - 1].1));
        law_detail_uses_each_answer(before, lines[k - 1].1);
        assert(answers_of(lines.take(k - 1)).push(lines[k - 1].1) =~= answers);
    }
    law_detail_is_what_its_parts_give(state);
    if k < lines.len() {
        assert(part(answers) == Outcome::<DetailPageView>::Ask(lines[k].0, Seq::empty()));
    } else {
        assert(lines.take(k) =~= lines);
        assert(part(answers_of(lines) + Seq::empty()) == Outcome::Done(detail, Seq::empty()));
        assert(answers_of(lines) + Seq::<AnswerView>::empty() =~= answers);
    }
}

/// A run for a page of reviews puts the questions of the dialog, one after the other as they are
/// answered, and ends with what the dialog comes to.
pub proof fn law_run_for_reviews_is_the_dialog(
    start: DetailState,
    lines: Seq<Line>,
    detail: DetailPageView,
    k: int,
)
    requires
        start.page == PageState::fresh(start.page.setup),
        start.tail.len() == 0,
        plays(|a: Seq<AnswerView>| whole_detail(start.page.setup, a), lines, detail),
        0 <= k < lines.len(),
    ensures
        start.after_all(answers_of(lines.take(k))).progress() == Progress::<DetailPageView>::Ask(
            lines[k].0,
        ),
        start.after_all(answers_of(lines)).progress() == Progress::Done(detail),
{
    lemma_detail_run(start, lines, detail, k);
    lemma_detail_run(start, lines, detail, lines.len() as int);
    assert(lines.take(lines.len() as int) =~= lines);
}

proof fn lemma_replies_run(
    start: PageState,
    lines: Seq<Line>,
    page: PageView,
    items: Seq<ReviewItemView>,
    k: int,
)
    requires
        start == PageState::fresh(start.setup),
        plays(|a: Seq<AnswerView>| whole_page(start.setup, a), lines, (page, items)),
        0 <= k <= lines.len(),
    ensures
        ({
            let state = replies_after_all(start, answers_of(lines.take(k)));
            &&& state.settled()
            &&& state.setup == start.setup
            &&& state.told() == answers_of(lines.take(k))
            &&& k < lines.len() ==> replies_progress(state) == Progress::<DetailPageView>::Ask(
                lines[k].0,
            )
            &&& k == lines.len() ==> replies_progress(state) == closed_replies(
                start.setup.place.page,
                page,
                items,
            )
        }),
    decreases k,
{
    let part = |a: Seq<AnswerView>| whole_page(start.setup, a);
    let answers = answers_of(lines.take(k));
    let state = replies_after_all(start, answers);
    if k == 0 {
        law_fresh_page_is_settled(start.setup);
        assert(start.told() =~= answers);
    } else {
        let before = replies_after_all(start, answers_of(lines.take(k - 1)));
        lemma_replies_run(start, lines, page, items, k - 1);
        assert(answers.drop_last() =~= answers_of(lines.take(k - 1)));
        assert(answers.last() == lines[k - 1].1);
        assert(fits(lines[k - 1].0, lines[k - 1].1));
        law_replies_use_each_answer(before, lines[k - 1].1);
        assert(answers_of(lines.take(k - 1)).push(lines[k - 1].1) =~= answers);
    }
    law_replies_are_what_their_parts_give(state);
    if k < lines.len() {
        assert(part(answers) == Outcome::<(PageView, Seq<ReviewItemView>)>::Ask(
            lines[k].0,
            Seq::empty(),
        ));
    } else {
        assert(lines.take(k) =~= lines);
        assert(part(answers_of(lines) + Seq::empty()) == Outcome::Done(
            (page, items),
            Seq::empty(),
        ));
        assert(answers_of(lines) + Seq::<AnswerView>::empty() =~= answers);
    }
}

/// A run for a page of replies puts the questions of the dialog for the page and its items, one
/// after the other as they are answered, and then ends.
pub proof fn law_run_for_replies_is_the_dialog(
    start: PageState,
    lines: Seq<Line>,
    page: PageView,
    items: Seq<ReviewItemView>,
    k: int,
)
    requires
        start == PageState::fresh(start.setup),
        plays(|a: Seq<AnswerView>| whole_page(start.setup, a), lines, (page, items)),
        0 <= k < lines.len(),
    ensures
        replies_progress(replies_after_all(start, answers_of(lines.take(k)))) == Progress::<
            DetailPageView,
        >::Ask(lines[k].0),
        replies_progress(replies_after_all(start, answers_of(lines))) == closed_replies(
            start.setup.place.page,
            page,
            items,
        ),
{
    lemma_replies_run(start, lines, page, items, k);
    lemma_replies_run(start, lines, page, items, lines.len() as int);
    assert(lines.take(lines.len() as int) =~= lines);
}

/// The state of a run for a summary once the answers are given, one after the other.
pub open spec fn summary_after_all<'a>(
    state: SummaryState<'a>,
    answers: Seq<AnswerView>,
) -> SummaryState<'a>
    decreases answers.len(),
{
    if answers.len() == 0 {
        state
    } else {
        summary_after_all(state, answers.drop_last()).after(answers.last())
    }
}

proof fn lemma_summary_run(start: SummaryState, lines: Seq<Line>, summary: SummaryView, k: int)
    requires
        start == SummaryState::fresh(start.setup),
        start.setup is Some,
        plays(|a: Seq<AnswerView>| whole_summary(start.setup->0, a), lines, summary),
        0 <= k <= lines.len(),
    ensures
        ({
            let state = summary_after_all(start, answers_of(lines.take(k)));
            &&& state.settled()
            &&& state.setup == start.setup
            &&& state.told() == answers_of(lines.take(k))
            &&& k < lines.len() ==> state.progress() == Progress::<SummaryView>::Ask(lines[k].0)
            &&& k == lines.len() ==> state.progress() == Progress::Done(summary)
        }),
    decreases k,
{
    let part = |a: Seq<AnswerView>| whole_summary(start.setup->0, a);
    let answers = answers_of(lines.take(k));
    let state = summary_after_all(start, answers);
    if k == 0 {
        law_fresh_summary_is_settled(start.setup);
        assert(start.told() =~= answers);
    } else {
        let before = summary_after_all(start, answers_of(lines.take(k - 1)));
        lemma_summary_run(start, lines, summary, k - 1);
        assert(answers.drop_last() =~= answers_of(lines.take(k - 1)));
        assert(answers.last() == lines[k - 1].1);
        assert(fits(lines[k - 1].0, lines[k - 1].1));
        law_summary_uses_each_answer(before, lines[k - 1].1);
        assert(answers_of(lines.take(k - 1)).push(lines[k - 1].1) =~= answers);
    }
    law_summary_is_what_its_parts_give(state);
    if k < lines.len() {
        assert(part(answers) == Outcome::<SummaryView>::Ask(lines[k].0, Seq::empty()));
    } else {
        assert(lines.take(k) =~= lines);
        assert(part(answers_of(lines) + Seq::empty()) == Outcome::Done(summary, Seq::empty()));
        assert(answers_of(lines) + Seq::<AnswerView>::empty() =~= answers);
    }
}

/// A run for a summary puts the questions of the dialog, one after the other as they are answered,
/// and ends with what the dialog comes to.
pub proof fn law_run_for_summary_is_the_dialog(
    start: SummaryState,
    lines: Seq<Line>,
    summary: SummaryView,
    k: int,
)
    requires
        start == SummaryState::fresh(start.setup),
        start.setup is Some,
        plays(|a: Seq<AnswerView>| whole_summary(start.setup->0, a), lines, summary),
        0 <= k < lines.len(),
    ensures
        summary_after_all(start, answers_of(lines.take(k))).progress() == Progress::<
            SummaryView,
        >::Ask(lines[k].0),
        summary_after_all(start, answers_of(lines)).progress() == Progress::Done(summary),
{
    lemma_summary_run(start, lines, summary, k);
    lemma_summary_run(start, lines, summary, lines.len() as int);
    assert(lines.take(lines.len() as int) =~= lines);
}

} // verus!
