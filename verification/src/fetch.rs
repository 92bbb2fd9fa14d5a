//! Asking a source for a page of reviews. Pages are only read: nothing is liked, posted or deleted.

use crate::dialog::{
    ask_pairs, ask_ready, ask_response, ask_text, take_pairs, take_ready,
    take_response, take_text, Answer, AnswerView, FetchResponse, FetchResponseView, HttpRequest,
    HttpRequestView, Outcome, Question, QuestionView, Step, UrlSuffix, UrlSuffixView,
};
use crate::model::{copy_text, BookSource, Place, ReviewError};
use crate::text::{lowered, same, same_lowered, trim, trimmed};
use crate::url_rule::{build_review_url, review_url, template_at, templated_at};
use crate::vars::{rule_vars, vars_at};
use vstd::prelude::*;
use vstd::string::*;

verus! {

/// How long a request may take, in seconds.
pub const TIMEOUT_SECS: u64 = 15;

/// A row of named values.
pub type Pairs = Seq<(Seq<char>, Seq<char>)>;

/// The values by name; where a name comes twice, the later value counts.
pub open spec fn by_name(pairs: Pairs) -> Map<Seq<char>, Seq<char>>
    decreases pairs.len(),
{
    if pairs.len() == 0 {
        Map::empty()
    } else {
        by_name(pairs.drop_last()).insert(pairs.last().0, pairs.last().1)
    }
}

/// The pairs with another name.
pub open spec fn without(pairs: Pairs, name: Seq<char>) -> Pairs
    decreases pairs.len(),
{
    if pairs.len() == 0 {
        pairs
    } else if pairs.last().0 == name {
        without(pairs.drop_last(), name)
    } else {
        without(pairs.drop_last(), name).push(pairs.last())
    }
}

/// `base` with the values of `extra` put in, in place of those of the same name.
pub open spec fn extended(base: Pairs, extra: Pairs) -> Pairs
    decreases extra.len(),
{
    if extra.len() == 0 {
        base
    } else {
        let before = extended(base, extra.drop_last());
        without(before, extra.last().0).push(extra.last())
    }
}

/// The headers of a request: those of the bridge, with those among the address's options put in.
pub open spec fn request_headers(base: Pairs, extra: Option<Pairs>) -> Pairs {
    match extra {
        Some(extra) => extended(base, extra),
        None => base,
    }
}

/// The pairs with another name.
fn drop_name(pairs: &Vec<(String, String)>, name: &str) -> (r: Vec<(String, String)>)
    ensures
        r.deep_view() == without(pairs.deep_view(), name@),
{
    let mut r: Vec<(String, String)> = Vec::new();
    let mut i: usize = 0;
    assert(r.deep_view() =~= without(pairs.deep_view().take(0), name@));
    while i < pairs.len()
        invariant
            i <= pairs.len(),
            r.deep_view() == without(pairs.deep_view().take(i as int), name@),
        decreases pairs.len() - i,
    {
        let ghost before = r.deep_view();
        proof {
            let all = pairs.deep_view();
            assert(all.take(i + 1).drop_last() =~= all.take(i as int));
            assert(all.take(i + 1).last() == pairs@[i as int].deep_view());
        }
        if !same(pairs[i].0.as_str(), name) {
            r.push((pairs[i].0.clone(), pairs[i].1.clone()));
            assert(r.deep_view() =~= before.push(pairs@[i as int].deep_view()));
        }
        i += 1;
    }
    assert(pairs.deep_view().take(i as int) =~= pairs.deep_view());
    r
}

/// `base` with the values of `extra` put in, in place of those of the same name.
pub fn extend_pairs(base: Vec<(String, String)>, extra: &Vec<(String, String)>) -> (r: Vec<
    (String, String),
>)
    ensures
        r.deep_view() == extended(base.deep_view(), extra.deep_view()),
{
    let mut r = base;
    let mut i: usize = 0;
    assert(extra.deep_view().take(0).len() == 0);
    while i < extra.len()
        invariant
            i <= extra.len(),
            r.deep_view() == extended(base.deep_view(), extra.deep_view().take(i as int)),
        decreases extra.len() - i,
    {
        proof {
            let all = extra.deep_view();
            assert(all.take(i + 1).drop_last() =~= all.take(i as int));
            assert(all.take(i + 1).last() == extra@[i as int].deep_view());
        }
        r = drop_name(&r, extra[i].0.as_str());
        let ghost before = r.deep_view();
        r.push((extra[i].0.clone(), extra[i].1.clone()));
        assert(r.deep_view() =~= before.push(extra@[i as int].deep_view()));
        i += 1;
    }
    assert(extra.deep_view().take(i as int) =~= extra.deep_view());
    r
}

/// Is the request to be sent with a body?
pub open spec fn is_post(method: Option<Seq<char>>) -> bool {
    match method {
        Some(method) => lowered(method) == lowered("POST"@),
        None => false,
    }
}

/// Is the request to be sent with a body?
fn posts(method: &Option<String>) -> (r: bool)
    ensures
        r == is_post(method.deep_view()),
{
    match method {
        Some(method) => same_lowered(method.as_str(), "POST"),
        None => false,
    }
}

/// The request for `url` at `place`.
pub open spec fn request_of(
    source: BookSource,
    place: Place,
    url: Seq<char>,
    suffix: UrlSuffixView,
    headers: Pairs,
) -> HttpRequestView {
    HttpRequestView {
        url,
        headers: request_headers(headers, suffix.headers),
        timeout_secs: TIMEOUT_SECS,
        body: if is_post(suffix.method) {
            match suffix.body {
                Some(body) => Some(templated_at(body, place)),
                None => None,
            }
        } else {
            None
        },
        charset: suffix.charset,
        proxy: source.proxy_url.deep_view(),
        retry: suffix.retry,
    }
}

/// The question that sends a request: with a body or without.
pub open spec fn send(suffix: UrlSuffixView, request: HttpRequestView) -> QuestionView {
    if is_post(suffix.method) {
        QuestionView::Post(request)
    } else {
        QuestionView::Get(request)
    }
}

/// The address's options may hold a script that has the last word on the text of the response.
pub open spec fn scripted_body(
    place: Place,
    suffix: UrlSuffixView,
    response: FetchResponseView,
    answers: Seq<AnswerView>,
) -> Outcome<FetchResponseView> {
    match suffix.body_js {
        Some(script) => {
            let vars = rule_vars(place, response.body);
            ask_text(answers, QuestionView::EvalScript { script, vars }).then_with(
                |body: Seq<char>, rest: Seq<AnswerView>|
                    Outcome::Done(FetchResponseView { url: response.url, body }, rest),
            )
        },
        None => Outcome::Done(response, answers),
    }
}

/// The response to a request for `url`, sent when it is the source's turn.
#[verifier::opaque]
pub open spec fn requested(
    source: BookSource,
    place: Place,
    url: Seq<char>,
    suffix: UrlSuffixView,
    answers: Seq<AnswerView>,
) -> Outcome<FetchResponseView> {
    ask_pairs(answers, QuestionView::BridgeHeaders).then_with(
        |headers: Pairs, rest: Seq<AnswerView>|
            ask_ready(rest, QuestionView::AcquireRate).then_with(
                |done: (), rest: Seq<AnswerView>|
                    ask_response(
                        rest,
                        send(suffix, request_of(source, place, url, suffix, headers)),
                    ).then_with(
                        |response: FetchResponseView, rest: Seq<AnswerView>|
                            scripted_body(place, suffix, response, rest),
                    ),
            ),
    )
}

/// The response to the request that `rule_url` makes at `place`.
#[verifier::opaque]
pub open spec fn fetched(
    source: BookSource,
    place: Place,
    rule_url: Seq<char>,
    answers: Seq<AnswerView>,
) -> Outcome<FetchResponseView> {
    ask_ready(answers, QuestionView::OpenBridge).then_with(
        |done: (), rest: Seq<AnswerView>|
            ask_ready(rest, QuestionView::SetHeaders(source.header.deep_view())).then_with(
                |done: (), rest: Seq<AnswerView>|
                    review_url(rule_url, place, rest).then_with(
                        |parts: (Seq<char>, UrlSuffixView), rest: Seq<AnswerView>|
                            ask_text(
                                rest,
                                QuestionView::Resolve {
                                    url: trimmed(parts.0),
                                    base: place.chapter.url@,
                                },
                            ).then_with(
                                |url: Seq<char>, rest: Seq<AnswerView>|
                                    if url.len() == 0 {
                                        Outcome::Fail(ReviewError::UrlEmpty)
                                    } else {
                                        requested(source, place, url, parts.1, rest)
                                    },
                            ),
                    ),
            ),
    )
}

/// Sends the request for `url` and reads the response.
fn request(
    source: &BookSource,
    place: &Place,
    url: String,
    suffix: UrlSuffix,
    given: &Vec<Answer>,
    pos: usize,
) -> (r: Step<FetchResponse>)
    requires
        pos <= given.len(),
    ensures
        r.agrees(
            given.deep_view(),
            requested(
                *source,
                *place,
                url@,
                suffix.deep_view(),
                given.deep_view().skip(pos as int),
            ),
        ),
{
    proof {
        reveal(requested);
    }
    match take_pairs(given, pos, Question::BridgeHeaders) {
        Step::Ask(question) => Step::Ask(question),
        Step::Fail(error) => Step::Fail(error),
        Step::Done(headers, pos) => match take_ready(given, pos, Question::AcquireRate) {
            Step::Ask(question) => Step::Ask(question),
            Step::Fail(error) => Step::Fail(error),
            Step::Done(_, pos) => {
                let post = posts(&suffix.method);
                let headers = match &suffix.headers {
                    Some(extra) => extend_pairs(headers, extra),
                    None => headers,
                };
                let body = if post {
                    match &suffix.body {
                        Some(body) => Some(template_at(body.as_str(), place)),
                        None => None,
                    }
                } else {
                    None
                };
                let request = HttpRequest {
                    url,
                    headers,
                    timeout_secs: TIMEOUT_SECS,
                    body,
                    charset: copy_text(&suffix.charset),
                    proxy: copy_text(&source.proxy_url),
                    retry: suffix.retry,
                };
                let question = if post {
                    Question::Post(request)
                } else {
                    Question::Get(request)
                };
                match take_response(given, pos, question) {
                    Step::Ask(question) => Step::Ask(question),
                    Step::Fail(error) => Step::Fail(error),
                    Step::Done(response, pos) => match suffix.body_js {
                        Some(script) => {
                            let vars = vars_at(place, response.body.as_str());
                            match take_text(given, pos, Question::EvalScript { script, vars }) {
                                Step::Ask(question) => Step::Ask(question),
                                Step::Fail(error) => Step::Fail(error),
                                Step::Done(body, pos) => Step::Done(
                                    FetchResponse { url: response.url, body },
                                    pos,
                                ),
                            }
                        },
                        None => Step::Done(response, pos),
                    },
                }
            },
        },
    }
}

/// Sends the request that `rule_url` makes at `place` and reads the response.
pub fn fetch_review_url(
    source: &BookSource,
    place: &Place,
    rule_url: &str,
    given: &Vec<Answer>,
    pos: usize,
) -> (r: Step<FetchResponse>)
    requires
        pos <= given.len(),
    ensures
        r.agrees(
            given.deep_view(),
            fetched(*source, *place, rule_url@, given.deep_view().skip(pos as int)),
        ),
{
    proof {
        reveal(fetched);
    }
    match take_ready(given, pos, Question::OpenBridge) {
        Step::Ask(question) => Step::Ask(question),
        Step::Fail(error) => Step::Fail(error),
        Step::Done(_, pos) => match take_ready(
            given,
            pos,
            Question::SetHeaders(copy_text(&source.header)),
        ) {
            Step::Ask(question) => Step::Ask(question),
            Step::Fail(error) => Step::Fail(error),
            Step::Done(_, pos) => match build_review_url(rule_url, place, given, pos) {
                Step::Ask(question) => Step::Ask(question),
                Step::Fail(error) => Step::Fail(error),
                Step::Done(parts, pos) => {
                    let (text, suffix) = parts;
                    let target = trim(text.as_str()).to_owned();
                    let base = place.chapter.url.clone();
                    match take_text(given, pos, Question::Resolve { url: target, base }) {
                        Step::Ask(question) => Step::Ask(question),
                        Step::Fail(error) => Step::Fail(error),
                        Step::Done(url, pos) => if url.as_str().is_empty() {
                            Step::Fail(ReviewError::UrlEmpty)
                        } else {
                            request(source, place, url, suffix, given, pos)
                        },
                    }
                },
            },
        },
    }
}

} // verus!
