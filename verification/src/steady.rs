//! How the parts of a run use the answers: in their order, each of them once, and none before it is
//! asked for.

use crate::content::{fields_of, float_text, some_text, ContentProtocolView};
use crate::dialog::{
    ask_number, ask_pairs, ask_ready, ask_response, ask_split, ask_text, ask_texts, fits,
    AnswerView, FetchResponseView, Outcome, QuestionView, UrlSuffixView, INNER_LEVEL, ITEM_LEVEL,
    PAGE_LEVEL,
};
use crate::item::{
    author_of, avatar_of, completed, depth, field_of, float_of, found_in, nested_texts,
    nothing_said, read_item, read_items, resolved, said_by, single_item, time_of, with_item,
    FoundView, ReadingView,
};
use crate::fetch::{fetched, request_of, requested, scripted_body, send};
use crate::detail::{closed_detail, next_url, one_page_on};
use crate::model::{
    filled_in, BookSource, Place, ReviewError, ReviewItemView, ReviewRule,
};
use crate::page_run::{opened, PageView};
use crate::summary::{counted, key_of, number_of, read_entry, SummarySetup};
use crate::text::{i64_of, trimmed};
use crate::url_rule::{
    review_url, split_url, templated_at, url_plan_of, with_tail, UrlPlanView,
};
use crate::vars::rule_vars;
use vstd::prelude::*;

verus! {

impl<T> Outcome<T> {
    /// How many answers are left over.
    pub open spec fn left(self) -> nat {
        match self {
            Outcome::Ask(_, left) => left.len(),
            Outcome::Fail(_) => 0,
            Outcome::Done(_, rest) => rest.len(),
        }
    }

    /// This outcome came of `answers`, and `longer` comes of the same part with `more` answers
    /// behind them. A result and a failure stay what they are, and so does a question that the
    /// first answer left over does not fit. A question that waits takes the first of `more` that
    /// comes, where it fits; a failed call is a failure at once.
    pub open spec fn steady(
        self,
        answers: Seq<AnswerView>,
        more: Seq<AnswerView>,
        longer: Outcome<T>,
    ) -> bool {
        &&& self.left() <= answers.len()
        &&& longer.left() <= answers.len() + more.len()
        &&& match self {
            Outcome::Done(value, rest) => longer == Outcome::Done(value, rest + more),
            Outcome::Fail(error) => longer == Outcome::<T>::Fail(error),
            Outcome::Ask(question, left) => if left.len() > 0 || more.len() == 0 || !fits(
                question,
                more[0],
            ) {
                longer == Outcome::<T>::Ask(question, left + more)
            } else {
                &&& longer.left() < more.len()
                &&& more[0] is Failed ==> longer == Outcome::<T>::Fail(ReviewError::CallFailed)
            },
        }
    }
}

// Each `steady_` lemma says of a part of a run that its outcome is steady; each `left_` lemma says
// that it has no more answers left over than it was given.

/// What is asked for is taken from the front.
pub proof fn lemma_front(answers: Seq<AnswerView>, more: Seq<AnswerView>)
    ensures
        answers.len() == 0 ==> answers + more == more,
        more.len() == 0 ==> answers + more == answers,
        answers.len() > 0 ==> (answers + more)[0] == answers[0],
        answers.len() > 0 ==> (answers + more).drop_first() == answers.drop_first() + more,
{
    if answers.len() == 0 {
        assert(answers + more =~= more);
    } else {
        assert((answers + more).drop_first() =~= answers.drop_first() + more);
    }
    if more.len() == 0 {
        assert(answers + more =~= answers);
    }
}

proof fn steady_ready(answers: Seq<AnswerView>, more: Seq<AnswerView>, question: QuestionView)
    requires
        question is OpenBridge || question is SetHeaders || question is AcquireRate
            || question is AssignVars || question is ForkVars,
    ensures
        ask_ready(answers, question).steady(answers, more, ask_ready(answers + more, question)),
{
    lemma_front(answers, more);
}

proof fn steady_text(answers: Seq<AnswerView>, more: Seq<AnswerView>, question: QuestionView)
    requires
        question is EvalScript || question is Resolve || question is Field,
    ensures
        ask_text(answers, question).steady(answers, more, ask_text(answers + more, question)),
{
    lemma_front(answers, more);
}

proof fn steady_texts(answers: Seq<AnswerView>, more: Seq<AnswerView>, question: QuestionView)
    requires
        question is Elements,
    ensures
        ask_texts(answers, question).steady(answers, more, ask_texts(answers + more, question)),
{
    lemma_front(answers, more);
}

proof fn steady_number(answers: Seq<AnswerView>, more: Seq<AnswerView>, question: QuestionView)
    requires
        question is ReadFloat,
    ensures
        ask_number(answers, question).steady(answers, more, ask_number(answers + more, question)),
{
    lemma_front(answers, more);
}

proof fn steady_pairs(answers: Seq<AnswerView>, more: Seq<AnswerView>, question: QuestionView)
    requires
        question is BridgeHeaders,
    ensures
        ask_pairs(answers, question).steady(answers, more, ask_pairs(answers + more, question)),
{
    lemma_front(answers, more);
}

proof fn steady_split(answers: Seq<AnswerView>, more: Seq<AnswerView>, question: QuestionView)
    requires
        question is SplitSuffix,
    ensures
        ask_split(answers, question).steady(answers, more, ask_split(answers + more, question)),
{
    lemma_front(answers, more);
}

proof fn steady_response(answers: Seq<AnswerView>, more: Seq<AnswerView>, question: QuestionView)
    requires
        question is Get || question is Post,
    ensures
        ask_response(answers, question).steady(
            answers,
            more,
            ask_response(answers + more, question),
        ),
{
    lemma_front(answers, more);
}

proof fn steady_field(
    text: Seq<char>,
    rule: Option<Seq<char>>,
    level: u8,
    answers: Seq<AnswerView>,
    more: Seq<AnswerView>,
)
    ensures
        field_of(text, rule, level, answers).steady(
            answers,
            more,
            field_of(text, rule, level, answers + more),
        ),
{
    reveal(field_of);
    if rule is Some {
        steady_text(answers, more, QuestionView::Field { level, rule: rule->0, text });
    }
}

broadcast proof fn left_field(
    text: Seq<char>,
    rule: Option<Seq<char>>,
    level: u8,
    answers: Seq<AnswerView>,
)
    ensures
        (#[trigger] field_of(text, rule, level, answers)).left() <= answers.len(),
{
    steady_field(text, rule, level, answers, Seq::empty());
}

proof fn steady_split_url(
    text: Seq<char>,
    place: Place,
    answers: Seq<AnswerView>,
    more: Seq<AnswerView>,
)
    ensures
        split_url(text, place, answers).steady(
            answers,
            more,
            split_url(text, place, answers + more),
        ),
{
    let question = QuestionView::SplitSuffix(text);
    steady_split(answers, more, question);
    if let Outcome::Done(parts, rest) = ask_split(answers, question) {
        if let Some(script) = parts.1.js {
            let vars = rule_vars(place, trimmed(parts.0));
            steady_text(rest, more, QuestionView::EvalScript { script, vars });
        }
    }
}

proof fn steady_review_url(
    rule_url: Seq<char>,
    place: Place,
    answers: Seq<AnswerView>,
    more: Seq<AnswerView>,
)
    ensures
        review_url(rule_url, place, answers).steady(
            answers,
            more,
            review_url(rule_url, place, answers + more),
        ),
{
    reveal(review_url);
    let raw = templated_at(rule_url, place);
    match url_plan_of(raw) {
        UrlPlanView::Plain => steady_split_url(raw, place, answers, more),
        UrlPlanView::Unclosed => steady_split(answers, more, QuestionView::SplitSuffix(raw)),
        UrlPlanView::Script { script, result } => {
            let question = QuestionView::EvalScript { script, vars: rule_vars(place, result) };
            steady_text(answers, more, question);
            if let Outcome::Done(value, rest) = ask_text(answers, question) {
                steady_split_url(value, place, rest, more);
            }
        },
        UrlPlanView::Tagged { script, result, tail } => {
            let question = QuestionView::EvalScript { script, vars: rule_vars(place, result) };
            steady_text(answers, more, question);
            if let Outcome::Done(value, rest) = ask_text(answers, question) {
                steady_split_url(with_tail(value, tail), place, rest, more);
            }
        },
    }
}

broadcast proof fn left_review_url(rule_url: Seq<char>, place: Place, answers: Seq<AnswerView>)
    ensures
        (#[trigger] review_url(rule_url, place, answers)).left() <= answers.len(),
{
    steady_review_url(rule_url, place, answers, Seq::empty());
}

proof fn steady_scripted_body(
    place: Place,
    suffix: UrlSuffixView,
    response: FetchResponseView,
    answers: Seq<AnswerView>,
    more: Seq<AnswerView>,
)
    ensures
        scripted_body(place, suffix, response, answers).steady(
            answers,
            more,
            scripted_body(place, suffix, response, answers + more),
        ),
{
    if let Some(script) = suffix.body_js {
        let vars = rule_vars(place, response.body);
        steady_text(answers, more, QuestionView::EvalScript { script, vars });
    }
}

proof fn steady_requested(
    source: BookSource,
    place: Place,
    url: Seq<char>,
    suffix: UrlSuffixView,
    answers: Seq<AnswerView>,
    more: Seq<AnswerView>,
)
    ensures
        requested(source, place, url, suffix, answers).steady(
            answers,
            more,
            requested(source, place, url, suffix, answers + more),
        ),
{
    reveal(requested);
    steady_pairs(answers, more, QuestionView::BridgeHeaders);
    if let Outcome::Done(headers, rest) = ask_pairs(answers, QuestionView::BridgeHeaders) {
        steady_ready(rest, more, QuestionView::AcquireRate);
        if let Outcome::Done(_, rest) = ask_ready(rest, QuestionView::AcquireRate) {
            let question = send(suffix, request_of(source, place, url, suffix, headers));
            steady_response(rest, more, question);
            if let Outcome::Done(response, rest) = ask_response(rest, question) {
                steady_scripted_body(place, suffix, response, rest, more);
            }
        }
    }
}

broadcast proof fn left_requested(
    source: BookSource,
    place: Place,
    url: Seq<char>,
    suffix: UrlSuffixView,
    answers: Seq<AnswerView>,
)
    ensures
        (#[trigger] requested(source, place, url, suffix, answers)).left() <= answers.len(),
{
    steady_requested(source, place, url, suffix, answers, Seq::empty());
}

proof fn steady_fetched(
    source: BookSource,
    place: Place,
    rule_url: Seq<char>,
    answers: Seq<AnswerView>,
    more: Seq<AnswerView>,
)
    ensures
        fetched(source, place, rule_url, answers).steady(
            answers,
            more,
            fetched(source, place, rule_url, answers + more),
        ),
{
    broadcast use left_review_url, left_requested;

    reveal(fetched);
    let headers = QuestionView::SetHeaders(source.header.deep_view());
    steady_ready(answers, more, QuestionView::OpenBridge);
    if let Outcome::Done(_, rest) = ask_ready(answers, QuestionView::OpenBridge) {
        steady_ready(rest, more, headers);
        if let Outcome::Done(_, rest) = ask_ready(rest, headers) {
            steady_review_url(rule_url, place, rest, more);
            if let Outcome::Done(parts, rest) = review_url(rule_url, place, rest) {
                let question = QuestionView::Resolve {
                    url: trimmed(parts.0),
                    base: place.chapter.url@,
                };
                steady_text(rest, more, question);
                if let Outcome::Done(url, rest) = ask_text(rest, question) {
                    steady_requested(source, place, url, parts.1, rest, more);
                }
            }
        }
    }
}

broadcast proof fn left_fetched(
    source: BookSource,
    place: Place,
    rule_url: Seq<char>,
    answers: Seq<AnswerView>,
)
    ensures
        (#[trigger] fetched(source, place, rule_url, answers)).left() <= answers.len(),
{
    steady_fetched(source, place, rule_url, answers, Seq::empty());
}

pub proof fn steady_opened(
    source: BookSource,
    place: Place,
    url_rule: Seq<char>,
    list_rule: Seq<char>,
    answers: Seq<AnswerView>,
    more: Seq<AnswerView>,
)
    ensures
        opened(source, place, url_rule, list_rule, answers).steady(
            answers,
            more,
            opened(source, place, url_rule, list_rule, answers + more),
        ),
{
    broadcast use left_fetched;

    reveal(opened);
    steady_fetched(source, place, url_rule, answers, more);
    if let Outcome::Done(response, rest) = fetched(source, place, url_rule, answers) {
        steady_ready(rest, more, QuestionView::OpenBridge);
        if let Outcome::Done(_, rest) = ask_ready(rest, QuestionView::OpenBridge) {
            let assign = QuestionView::AssignVars(rule_vars(place, response.body));
            steady_ready(rest, more, assign);
            if let Outcome::Done(_, rest) = ask_ready(rest, assign) {
                let question = QuestionView::Elements {
                    level: PAGE_LEVEL,
                    rule: list_rule,
                    text: response.body,
                };
                steady_texts(rest, more, question);
            }
        }
    }
}

proof fn steady_resolved(
    url: Option<Seq<char>>,
    base: Seq<char>,
    answers: Seq<AnswerView>,
    more: Seq<AnswerView>,
)
    ensures
        resolved(url, base, answers).steady(
            answers,
            more,
            resolved(url, base, answers + more),
        ),
{
    reveal(resolved);
    if let Some(url) = url {
        steady_text(answers, more, QuestionView::Resolve { url, base });
    }
}

broadcast proof fn left_resolved(
    url: Option<Seq<char>>,
    base: Seq<char>,
    answers: Seq<AnswerView>,
)
    ensures
        (#[trigger] resolved(url, base, answers)).left() <= answers.len(),
{
    steady_resolved(url, base, answers, Seq::empty());
}

proof fn steady_float(
    text: Option<Seq<char>>,
    answers: Seq<AnswerView>,
    more: Seq<AnswerView>,
)
    ensures
        float_of(text, answers).steady(
            answers,
            more,
            float_of(text, answers + more),
        ),
{
    if let Some(text) = text {
        steady_number(answers, more, QuestionView::ReadFloat(text));
    }
}

proof fn steady_said(
    raw: Seq<char>,
    answers: Seq<AnswerView>,
    more: Seq<AnswerView>,
)
    ensures
        said_by(raw, answers).steady(
            answers,
            more,
            said_by(raw, answers + more),
        ),
{
    reveal(said_by);
    if let Some(fields) = fields_of(raw) {
        steady_float(float_text(fields.like_count), answers, more);
        if let Outcome::Done(_, rest) = float_of(float_text(fields.like_count), answers) {
            steady_float(float_text(fields.reply_count), rest, more);
        }
    }
}

broadcast proof fn left_said(
    raw: Seq<char>,
    answers: Seq<AnswerView>,
)
    ensures
        (#[trigger] said_by(raw, answers)).left() <= answers.len(),
{
    steady_said(raw, answers, Seq::empty());
}

proof fn steady_avatar(
    reading: ReadingView,
    item: Seq<char>,
    answers: Seq<AnswerView>,
    more: Seq<AnswerView>,
)
    ensures
        avatar_of(reading, item, answers).steady(
            answers,
            more,
            avatar_of(reading, item, answers + more),
        ),
{
    broadcast use left_field, left_resolved;

    reveal(avatar_of);
    steady_field(item, reading.avatar_rule(), reading.level(), answers, more);
    if let Outcome::Done(avatar, rest) = field_of(
        item,
        reading.avatar_rule(),
        reading.level(),
        answers,
    ) {
        steady_resolved(some_text(avatar), reading.base_url, rest, more);
    }
}

broadcast proof fn left_avatar(
    reading: ReadingView,
    item: Seq<char>,
    answers: Seq<AnswerView>,
)
    ensures
        (#[trigger] avatar_of(reading, item, answers)).left() <= answers.len(),
{
    steady_avatar(reading, item, answers, Seq::empty());
}

proof fn steady_author(
    reading: ReadingView,
    item: Seq<char>,
    answers: Seq<AnswerView>,
    more: Seq<AnswerView>,
)
    ensures
        author_of(reading, item, answers).steady(
            answers,
            more,
            author_of(reading, item, answers + more),
        ),
{
    broadcast use left_field, left_avatar;

    reveal(author_of);
    let level = reading.level();
    steady_field(item, reading.id_rule(), level, answers, more);
    if let Outcome::Done(_, rest) = field_of(item, reading.id_rule(), level, answers) {
        steady_avatar(reading, item, rest, more);
        if let Outcome::Done(_, rest) = avatar_of(reading, item, rest) {
            steady_field(item, reading.name_rule(), level, rest, more);
        }
    }
}

broadcast proof fn left_author(reading: ReadingView, item: Seq<char>, answers: Seq<AnswerView>)
    ensures
        (#[trigger] author_of(reading, item, answers)).left() <= answers.len(),
{
    steady_author(reading, item, answers, Seq::empty());
}

proof fn steady_found(
    reading: ReadingView,
    item: Seq<char>,
    answers: Seq<AnswerView>,
    more: Seq<AnswerView>,
)
    ensures
        found_in(reading, item, answers).steady(
            answers,
            more,
            found_in(reading, item, answers + more),
        ),
{
    broadcast use left_field, left_author;

    reveal(found_in);
    let level = reading.level();
    let fork = QuestionView::ForkVars { level };
    steady_ready(answers, more, fork);
    if let Outcome::Done(_, rest) = ask_ready(answers, fork) {
        steady_author(reading, item, rest, more);
        if let Outcome::Done(_, rest) = author_of(reading, item, rest) {
            steady_field(item, reading.badge_rule(), level, rest, more);
            if let Outcome::Done(_, rest) = field_of(item, reading.badge_rule(), level, rest) {
                steady_field(item, Some(reading.content_rule), level, rest, more);
            }
        }
    }
}

broadcast proof fn left_found(
    reading: ReadingView,
    item: Seq<char>,
    answers: Seq<AnswerView>,
)
    ensures
        (#[trigger] found_in(reading, item, answers)).left() <= answers.len(),
{
    steady_found(reading, item, answers, Seq::empty());
}

proof fn steady_time(
    reading: ReadingView,
    item: Seq<char>,
    said: Option<Seq<char>>,
    answers: Seq<AnswerView>,
    more: Seq<AnswerView>,
)
    ensures
        time_of(reading, item, said, answers).steady(
            answers,
            more,
            time_of(reading, item, said, answers + more),
        ),
{
    broadcast use left_field;

    let rule = reading.rule.post_time_rule.deep_view();
    steady_field(item, rule, reading.level(), answers, more);
}

broadcast proof fn left_time(
    reading: ReadingView,
    item: Seq<char>,
    said: Option<Seq<char>>,
    answers: Seq<AnswerView>,
)
    ensures
        (#[trigger] time_of(reading, item, said, answers)).left() <= answers.len(),
{
    steady_time(reading, item, said, answers, Seq::empty());
}

proof fn steady_completed(
    reading: ReadingView,
    item: Seq<char>,
    found: FoundView,
    said: Option<ContentProtocolView>,
    answers: Seq<AnswerView>,
    more: Seq<AnswerView>,
)
    ensures
        completed(reading, item, found, said, answers).steady(
            answers,
            more,
            completed(reading, item, found, said, answers + more),
        ),
{
    broadcast use left_resolved, left_time;

    reveal(completed);
    let said_more = match said {
        Some(said) => said,
        None => nothing_said(),
    };
    steady_resolved(said_more.image, reading.base_url, answers, more);
    if let Outcome::Done(_, rest) = resolved(said_more.image, reading.base_url, answers) {
        steady_resolved(said_more.audio, reading.base_url, rest, more);
        if let Outcome::Done(_, rest) = resolved(said_more.audio, reading.base_url, rest) {
            steady_time(reading, item, said_more.time, rest, more);
        }
    }
}

broadcast proof fn left_completed(
    reading: ReadingView,
    item: Seq<char>,
    found: FoundView,
    said: Option<ContentProtocolView>,
    answers: Seq<AnswerView>,
)
    ensures
        (#[trigger] completed(reading, item, found, said, answers)).left() <= answers.len(),
{
    steady_completed(reading, item, found, said, answers, Seq::empty());
}

proof fn steady_single(
    reading: ReadingView,
    item: Seq<char>,
    answers: Seq<AnswerView>,
    more: Seq<AnswerView>,
)
    ensures
        single_item(reading, item, answers).steady(
            answers,
            more,
            single_item(reading, item, answers + more),
        ),
{
    broadcast use left_found, left_said, left_completed;

    reveal(single_item);
    steady_found(reading, item, answers, more);
    if let Outcome::Done(found, rest) = found_in(reading, item, answers) {
        steady_said(found.raw_content, rest, more);
        if let Outcome::Done(said, rest) = said_by(found.raw_content, rest) {
            steady_completed(reading, item, found, said, rest, more);
        }
    }
}

broadcast proof fn left_single(
    reading: ReadingView,
    item: Seq<char>,
    answers: Seq<AnswerView>,
)
    ensures
        (#[trigger] single_item(reading, item, answers)).left() <= answers.len(),
{
    steady_single(reading, item, answers, Seq::empty());
}

proof fn steady_nested_texts(
    reading: ReadingView,
    rule: Seq<char>,
    item: Seq<char>,
    answers: Seq<AnswerView>,
    more: Seq<AnswerView>,
)
    ensures
        nested_texts(reading, rule, item, answers).steady(
            answers,
            more,
            nested_texts(reading, rule, item, answers + more),
        ),
{
    let level = INNER_LEVEL;
    let fork = QuestionView::ForkVars { level };
    steady_ready(answers, more, fork);
    if let Outcome::Done(_, rest) = ask_ready(answers, fork) {
        steady_texts(rest, more, QuestionView::Elements { level, rule, text: item });
    }
}

broadcast proof fn left_nested_texts(
    reading: ReadingView,
    rule: Seq<char>,
    item: Seq<char>,
    answers: Seq<AnswerView>,
)
    ensures
        (#[trigger] nested_texts(reading, rule, item, answers)).left() <= answers.len(),
{
    steady_nested_texts(reading, rule, item, answers, Seq::empty());
}

pub proof fn steady_item(
    reading: ReadingView,
    item: Seq<char>,
    answers: Seq<AnswerView>,
    more: Seq<AnswerView>,
)
    ensures
        read_item(reading, item, answers).steady(
            answers,
            more,
            read_item(reading, item, answers + more),
        ),
    decreases depth(reading), 0nat,
{
    broadcast use left_single, left_nested_texts;

    reveal(read_item);
    steady_single(reading, item, answers, more);
    if let Some(rule) = reading.nested_rule() {
        let none = Seq::<ReviewItemView>::empty();
        if let Outcome::Done(Some(_), rest) = single_item(reading, item, answers) {
            steady_nested_texts(reading, rule, item, rest, more);
            if let Outcome::Done(texts, rest) = nested_texts(reading, rule, item, rest) {
                steady_items(reading.nested(), texts, none, rest, more);
            }
        }
        if let Outcome::Done(Some(_), rest) = single_item(reading, item, answers + more) {
            if let Outcome::Done(texts, rest) = nested_texts(reading, rule, item, rest) {
                steady_items(reading.nested(), texts, none, rest, Seq::empty());
            }
        }
    }
}

pub proof fn steady_items(
    reading: ReadingView,
    texts: Seq<Seq<char>>,
    before: Seq<ReviewItemView>,
    answers: Seq<AnswerView>,
    more: Seq<AnswerView>,
)
    ensures
        read_items(reading, texts, before, answers).steady(
            answers,
            more,
            read_items(reading, texts, before, answers + more),
        ),
    decreases depth(reading), texts.len(),
{
    reveal(read_item);
    if texts.len() > 0 {
        let left = texts.drop_first();
        steady_item(reading, texts[0], answers, more);
        if let Outcome::Done(item, rest) = read_item(reading, texts[0], answers) {
            steady_items(reading, left, with_item(before, item), rest, more);
        }
        if let Outcome::Done(item, rest) = read_item(reading, texts[0], answers + more) {
            steady_items(reading, left, with_item(before, item), rest, Seq::empty());
        }
    }
}

proof fn steady_number_of(
    text: Seq<char>,
    answers: Seq<AnswerView>,
    more: Seq<AnswerView>,
)
    ensures
        number_of(text, answers).steady(
            answers,
            more,
            number_of(text, answers + more),
        ),
{
    let undecided = if i64_of(trimmed(text)) is Some {
        None
    } else {
        Some(trimmed(text))
    };
    steady_float(undecided, answers, more);
}

broadcast proof fn left_number_of(
    text: Seq<char>,
    answers: Seq<AnswerView>,
)
    ensures
        (#[trigger] number_of(text, answers)).left() <= answers.len(),
{
    steady_number_of(text, answers, Seq::empty());
}

proof fn steady_key(
    setup: SummarySetup,
    item: Seq<char>,
    index_text: Seq<char>,
    paragraph: i64,
    answers: Seq<AnswerView>,
    more: Seq<AnswerView>,
)
    ensures
        key_of(setup, item, index_text, paragraph, answers).steady(
            answers,
            more,
            key_of(setup, item, index_text, paragraph, answers + more),
        ),
{
    broadcast use left_field;

    steady_field(item, setup.data_rule.deep_view(), ITEM_LEVEL, answers, more);
}

broadcast proof fn left_key(
    setup: SummarySetup,
    item: Seq<char>,
    index_text: Seq<char>,
    paragraph: i64,
    answers: Seq<AnswerView>,
)
    ensures
        (#[trigger] key_of(setup, item, index_text, paragraph, answers)).left() <= answers.len(),
{
    steady_key(setup, item, index_text, paragraph, answers, Seq::empty());
}

proof fn steady_counted(
    setup: SummarySetup,
    item: Seq<char>,
    index_text: Seq<char>,
    paragraph: i64,
    answers: Seq<AnswerView>,
    more: Seq<AnswerView>,
)
    ensures
        counted(setup, item, index_text, paragraph, answers).steady(
            answers,
            more,
            counted(setup, item, index_text, paragraph, answers + more),
        ),
{
    broadcast use left_field, left_number_of, left_key;

    reveal(counted);
    let rule = Some(setup.count_rule@);
    steady_field(item, rule, ITEM_LEVEL, answers, more);
    if let Outcome::Done(text, rest) = field_of(item, rule, ITEM_LEVEL, answers) {
        steady_number_of(text, rest, more);
        if let Outcome::Done(_, rest) = number_of(text, rest) {
            steady_key(setup, item, index_text, paragraph, rest, more);
        }
    }
}

broadcast proof fn left_counted(
    setup: SummarySetup,
    item: Seq<char>,
    index_text: Seq<char>,
    paragraph: i64,
    answers: Seq<AnswerView>,
)
    ensures
        (#[trigger] counted(setup, item, index_text, paragraph, answers)).left() <= answers.len(),
{
    steady_counted(setup, item, index_text, paragraph, answers, Seq::empty());
}

pub proof fn steady_entry(
    setup: SummarySetup,
    index: int,
    item: Seq<char>,
    answers: Seq<AnswerView>,
    more: Seq<AnswerView>,
)
    ensures
        read_entry(setup, index, item, answers).steady(
            answers,
            more,
            read_entry(setup, index, item, answers + more),
        ),
{
    broadcast use left_field, left_number_of, left_counted;

    reveal(read_entry);
    let fork = QuestionView::ForkVars { level: ITEM_LEVEL };
    let rule = Some(setup.index_rule@);
    steady_ready(answers, more, fork);
    if let Outcome::Done(_, rest) = ask_ready(answers, fork) {
        steady_field(item, rule, ITEM_LEVEL, rest, more);
        if let Outcome::Done(index_text, rest) = field_of(item, rule, ITEM_LEVEL, rest) {
            steady_number_of(index_text, rest, more);
            if let Outcome::Done(number, rest) = number_of(index_text, rest) {
                let paragraph = match number {
                    Some(n) => n,
                    None => (index + 1) as i64,
                };
                steady_counted(setup, item, index_text, paragraph, rest, more);
            }
        }
    }
}

proof fn steady_next_url(
    rule: ReviewRule,
    place: Place,
    page: PageView,
    answers: Seq<AnswerView>,
    more: Seq<AnswerView>,
)
    ensures
        next_url(rule, place, page, answers).steady(
            answers,
            more,
            next_url(rule, place, page, answers + more),
        ),
{
    broadcast use left_field, left_resolved;

    reveal(next_url);
    if let Some(next_rule) = filled_in(rule.review_detail_next_page_url) {
        let assign = QuestionView::AssignVars(rule_vars(one_page_on(place), page.body));
        steady_ready(answers, more, assign);
        if let Outcome::Done(_, rest) = ask_ready(answers, assign) {
            let level = PAGE_LEVEL;
            steady_field(page.body, Some(next_rule), level, rest, more);
            if let Outcome::Done(next, rest) = field_of(page.body, Some(next_rule), level, rest) {
                steady_resolved(some_text(next), page.url, rest, more);
            }
        }
    }
}

broadcast proof fn left_next_url(
    rule: ReviewRule,
    place: Place,
    page: PageView,
    answers: Seq<AnswerView>,
)
    ensures
        (#[trigger] next_url(rule, place, page, answers)).left() <= answers.len(),
{
    steady_next_url(rule, place, page, answers, Seq::empty());
}

pub proof fn steady_closed_detail(
    rule: ReviewRule,
    place: Place,
    page: PageView,
    items: Seq<ReviewItemView>,
    answers: Seq<AnswerView>,
    more: Seq<AnswerView>,
)
    ensures
        closed_detail(rule, place, page, items, answers).steady(
            answers,
            more,
            closed_detail(rule, place, page, items, answers + more),
        ),
{
    broadcast use left_next_url;

    steady_next_url(rule, place, page, answers, more);
}

} // verus!
