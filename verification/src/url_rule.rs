//! From the address rule of a source to the address that is asked for.

use crate::dialog::{
    ask_split, ask_text, take_split, take_text, Answer, AnswerView, Outcome, Question, QuestionView,
    Step, UrlSuffix, UrlSuffixView,
};
use crate::model::Place;
use crate::text::{
    contains, decimal, decimal_text, find_lowered, has, is_blank, lowered, position_from, replace,
    replaced, stands_at, starts_lowered, trim, trimmed,
};
use crate::vars::{rule_vars, vars_at};
use vstd::prelude::*;
use vstd::string::*;

verus! {

/// `s` with a placeholder, in double and then in single braces, replaced by `by`.
pub open spec fn placed(s: Seq<char>, double: Seq<char>, single: Seq<char>, by: Seq<char>) -> Seq<
    char,
> {
    replaced(replaced(s, double, by), single, by)
}

/// `value` with the placeholders for the paragraph, the review and the page filled in, in this
/// order.
pub open spec fn templated(
    value: Seq<char>,
    para_index: int,
    para_data: Seq<char>,
    review_id: Seq<char>,
    page: int,
) -> Seq<char> {
    let a = placed(value, "{{paraIndex}}"@, "{paraIndex}"@, decimal(para_index));
    let b = placed(a, "{{paraData}}"@, "{paraData}"@, para_data);
    let c = placed(b, "{{reviewId}}"@, "{reviewId}"@, review_id);
    placed(c, "{{page}}"@, "{page}"@, decimal(page))
}

/// `value` with the placeholders filled in for `place`.
pub open spec fn templated_at(value: Seq<char>, place: Place) -> Seq<char> {
    templated(value, place.para_index as int, place.para_data@, place.review(), place.page as int)
}

/// `value` with the placeholders for the paragraph, the review and the page filled in.
pub fn replace_review_templates(
    value: &str,
    para_index: i64,
    para_data: &str,
    review_id: &str,
    page: u32,
) -> (r: String)
    ensures
        r@ == templated(value@, para_index as int, para_data@, review_id@, page as int),
{
    proof {
        reveal_strlit("{{paraIndex}}");
        reveal_strlit("{paraIndex}");
        reveal_strlit("{{paraData}}");
        reveal_strlit("{paraData}");
        reveal_strlit("{{reviewId}}");
        reveal_strlit("{reviewId}");
        reveal_strlit("{{page}}");
        reveal_strlit("{page}");
    }
    let index = decimal_text(para_index);
    let a = replace(value, "{{paraIndex}}", index.as_str());
    let a = replace(a.as_str(), "{paraIndex}", index.as_str());
    let b = replace(a.as_str(), "{{paraData}}", para_data);
    let b = replace(b.as_str(), "{paraData}", para_data);
    let c = replace(b.as_str(), "{{reviewId}}", review_id);
    let c = replace(c.as_str(), "{reviewId}", review_id);
    let number = decimal_text(page as i64);
    let d = replace(c.as_str(), "{{page}}", number.as_str());
    replace(d.as_str(), "{page}", number.as_str())
}

/// `value` with the placeholders filled in for `place`.
pub fn template_at(value: &str, place: &Place) -> (r: String)
    ensures
        r@ == templated_at(value@, *place),
{
    proof {
        reveal_strlit("");
        assert(""@ =~= Seq::<char>::empty());
    }
    let review = match place.review_id {
        Some(id) => id,
        None => "",
    };
    replace_review_templates(value, place.para_index, place.para_data, review, place.page)
}

/// What is to be done with an address rule whose placeholders are filled in.
#[derive(Debug, Clone)]
pub enum UrlPlan {
    /// It is an address.
    Plain,
    /// A script makes the address; `result` is what the script starts from.
    Script { script: String, result: String },
    /// A script makes the address together with the text behind it.
    Tagged { script: String, result: String, tail: String },
    /// The tag of a script is not closed.
    Unclosed,
}

/// A plan as a mathematical value.
#[verifier::ext_equal]
pub enum UrlPlanView {
    Plain,
    Script { script: Seq<char>, result: Seq<char> },
    Tagged { script: Seq<char>, result: Seq<char>, tail: Seq<char> },
    Unclosed,
}

impl DeepView for UrlPlan {
    type V = UrlPlanView;

    open spec fn deep_view(&self) -> UrlPlanView {
        match self {
            UrlPlan::Plain => UrlPlanView::Plain,
            UrlPlan::Script { script, result } => UrlPlanView::Script {
                script: script@,
                result: result@,
            },
            UrlPlan::Tagged { script, result, tail } => UrlPlanView::Tagged {
                script: script@,
                result: result@,
                tail: tail@,
            },
            UrlPlan::Unclosed => UrlPlanView::Unclosed,
        }
    }
}

/// The address that stands in front of a script, or all of the rule where none does.
pub open spec fn script_start(raw: Seq<char>, at: int) -> Seq<char> {
    if is_blank(raw.take(at)) {
        raw
    } else {
        trimmed(raw.take(at))
    }
}

/// The plan for a rule: a script after the mark `@js:`, else one between the tags `<js>` and
/// `</js>`, else one after `js:` at the beginning, else the address as it is. Upper and lower case
/// make no difference to the marks.
pub open spec fn url_plan_of(raw: Seq<char>) -> UrlPlanView {
    let low = lowered(raw);
    match position_from(low, "@js:"@, 0) {
        Some(at) => UrlPlanView::Script {
            script: trimmed(raw.skip(at + 4)),
            result: script_start(raw, at),
        },
        None => match position_from(low, "<js>"@, 0) {
            Some(tag) => match position_from(low, "</js>"@, tag + 4) {
                Some(end) => UrlPlanView::Tagged {
                    script: raw.subrange(tag + 4, end),
                    result: script_start(raw, tag),
                    tail: trimmed(raw.skip(end + 5)),
                },
                None => UrlPlanView::Unclosed,
            },
            None => if stands_at(low, "js:"@, 0) {
                UrlPlanView::Script { script: trimmed(raw.skip(3)), result: raw }
            } else {
                UrlPlanView::Plain
            },
        },
    }
}

/// The address that stands in front of a script, or all of the rule where none does.
fn start_of_script(raw: &str, at: usize) -> (r: String)
    requires
        at <= raw@.len(),
    ensures
        r@ == script_start(raw@, at as int),
{
    assert(raw@.subrange(0, at as int) =~= raw@.take(at as int));
    let prefix = trim(raw.substring_char(0, at));
    if prefix.is_empty() {
        raw.to_owned()
    } else {
        prefix.to_owned()
    }
}

/// The part of `s` from `from` on.
fn from_char(s: &str, from: usize) -> (r: &str)
    requires
        from <= s@.len(),
    ensures
        r@ == s@.skip(from as int),
{
    let len = s.unicode_len();
    assert(s@.subrange(from as int, len as int) =~= s@.skip(from as int));
    s.substring_char(from, len)
}

/// The plan for a rule.
pub fn url_plan(raw: &str) -> (r: UrlPlan)
    ensures
        r.deep_view() == url_plan_of(raw@),
{
    proof {
        reveal_strlit("@js:");
        reveal_strlit("<js>");
        reveal_strlit("</js>");
        reveal_strlit("js:");
    }
    match find_lowered(raw, "@js:", 0) {
        Some(at) => {
            return UrlPlan::Script {
                script: trim(from_char(raw, at + 4)).to_owned(),
                result: start_of_script(raw, at),
            };
        },
        None => {},
    }
    match find_lowered(raw, "<js>", 0) {
        Some(tag) => {
            return match find_lowered(raw, "</js>", tag + 4) {
                Some(end) => UrlPlan::Tagged {
                    script: raw.substring_char(tag + 4, end).to_owned(),
                    result: start_of_script(raw, tag),
                    tail: trim(from_char(raw, end + 5)).to_owned(),
                },
                None => UrlPlan::Unclosed,
            };
        },
        None => {},
    }
    if starts_lowered(raw, "js:") {
        UrlPlan::Script { script: trim(from_char(raw, 3)).to_owned(), result: raw.to_owned() }
    } else {
        UrlPlan::Plain
    }
}

/// What a tagged script gave, together with the text behind the tag: put in place of `@result`
/// where that stands there, else in front.
pub open spec fn with_tail(value: Seq<char>, tail: Seq<char>) -> Seq<char> {
    if tail.len() == 0 {
        value
    } else if contains(tail, "@result"@) {
        replaced(tail, "@result"@, value)
    } else {
        value + tail
    }
}

/// What a tagged script gave, together with the text behind the tag.
pub fn join_tail(value: &str, tail: &str) -> (r: String)
    ensures
        r@ == with_tail(value@, tail@),
{
    proof {
        reveal_strlit("@result");
    }
    if tail.is_empty() {
        value.to_owned()
    } else if has(tail, "@result") {
        replace(tail, "@result", value)
    } else {
        value.to_owned().concat(tail)
    }
}

/// The options behind `text` are taken off, and the script among them, where there is one, has the
/// last word on the address.
pub open spec fn split_url(text: Seq<char>, place: Place, answers: Seq<AnswerView>) -> Outcome<
    (Seq<char>, UrlSuffixView),
> {
    ask_split(answers, QuestionView::SplitSuffix(text)).then_with(
        |parts: (Seq<char>, UrlSuffixView), rest: Seq<AnswerView>|
            match parts.1.js {
                Some(script) => {
                    let vars = rule_vars(place, trimmed(parts.0));
                    ask_text(rest, QuestionView::EvalScript { script, vars }).then_with(
                        |url: Seq<char>, rest: Seq<AnswerView>|
                            Outcome::Done((url, UrlSuffixView { js: None, ..parts.1 }), rest),
                    )
                },
                None => Outcome::Done(parts, rest),
            },
    )
}

/// The address that `rule_url` gives at `place`, and the options behind it.
#[verifier::opaque]
pub open spec fn review_url(rule_url: Seq<char>, place: Place, answers: Seq<AnswerView>) -> Outcome<
    (Seq<char>, UrlSuffixView),
> {
    let raw = templated_at(rule_url, place);
    match url_plan_of(raw) {
        UrlPlanView::Plain => split_url(raw, place, answers),
        UrlPlanView::Unclosed => ask_split(answers, QuestionView::SplitSuffix(raw)),
        UrlPlanView::Script { script, result } => {
            let vars = rule_vars(place, result);
            ask_text(answers, QuestionView::EvalScript { script, vars }).then_with(
                |value: Seq<char>, rest: Seq<AnswerView>| split_url(value, place, rest),
            )
        },
        UrlPlanView::Tagged { script, result, tail } => {
            let vars = rule_vars(place, result);
            ask_text(answers, QuestionView::EvalScript { script, vars }).then_with(
                |value: Seq<char>, rest: Seq<AnswerView>|
                    split_url(with_tail(value, tail), place, rest),
            )
        },
    }
}

/// Takes the options off `text` and lets the script among them have the last word on the address.
fn split_off(text: String, place: &Place, given: &Vec<Answer>, pos: usize) -> (r: Step<
    (String, UrlSuffix),
>)
    requires
        pos <= given.len(),
    ensures
        r.agrees(
            given.deep_view(),
            split_url(text@, *place, given.deep_view().skip(pos as int)),
        ),
{
    match take_split(given, pos, Question::SplitSuffix(text)) {
        Step::Ask(question) => Step::Ask(question),
        Step::Fail(error) => Step::Fail(error),
        Step::Done(parts, pos) => {
            let (url, suffix) = parts;
            let UrlSuffix { headers, body, method, charset, retry, body_js, js } = suffix;
            match js {
                Some(script) => {
                    let vars = vars_at(place, trim(url.as_str()));
                    match take_text(given, pos, Question::EvalScript { script, vars }) {
                        Step::Ask(question) => Step::Ask(question),
                        Step::Fail(error) => Step::Fail(error),
                        Step::Done(value, pos) => {
                            let suffix = UrlSuffix {
                                headers,
                                body,
                                method,
                                charset,
                                retry,
                                body_js,
                                js: None,
                            };
                            Step::Done((value, suffix), pos)
                        },
                    }
                },
                None => {
                    let suffix = UrlSuffix {
                        headers,
                        body,
                        method,
                        charset,
                        retry,
                        body_js,
                        js: None,
                    };
                    Step::Done((url, suffix), pos)
                },
            }
        },
    }
}

/// The address that `rule_url` gives at `place`, and the options behind it.
pub fn build_review_url(rule_url: &str, place: &Place, given: &Vec<Answer>, pos: usize) -> (r: Step<
    (String, UrlSuffix),
>)
    requires
        pos <= given.len(),
    ensures
        r.agrees(
            given.deep_view(),
            review_url(rule_url@, *place, given.deep_view().skip(pos as int)),
        ),
{
    proof {
        reveal(review_url);
    }
    let raw = template_at(rule_url, place);
    match url_plan(raw.as_str()) {
        UrlPlan::Plain => split_off(raw, place, given, pos),
        UrlPlan::Unclosed => take_split(given, pos, Question::SplitSuffix(raw)),
        UrlPlan::Script { script, result } => {
            let vars = vars_at(place, result.as_str());
            match take_text(given, pos, Question::EvalScript { script, vars }) {
                Step::Ask(question) => Step::Ask(question),
                Step::Fail(error) => Step::Fail(error),
                Step::Done(value, pos) => split_off(value, place, given, pos),
            }
        },
        UrlPlan::Tagged { script, result, tail } => {
            let vars = vars_at(place, result.as_str());
            match take_text(given, pos, Question::EvalScript { script, vars }) {
                Step::Ask(question) => Step::Ask(question),
                Step::Fail(error) => Step::Fail(error),
                Step::Done(value, pos) => split_off(
                    join_tail(value.as_str(), tail.as_str()),
                    place,
                    given,
                    pos,
                ),
            }
        },
    }
}

} // verus!
