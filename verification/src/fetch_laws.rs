//! What a source is asked for, as dialogs: from an address rule to the response.

use crate::dialog::{
    ask_pairs, ask_ready, ask_response, ask_split, ask_text, AnswerView, FetchResponseView,
    HttpRequestView, Outcome, QuestionView, UrlSuffixView,
};
use crate::fetch::{by_name, fetched, request_of, requested, scripted_body, send, Pairs};
use crate::laws::law_options_headers_come_first;
use crate::model::{BookSource, Place, ReviewError};
use crate::next_urls::distinct_names;
use crate::plays::{
    answers_of, lemma_one, lemma_pairs, lemma_ready, lemma_response, lemma_silent, lemma_split,
    lemma_text, lemma_then, plays, Line,
};
use crate::text::{
    contains, is_blank, lowered, position_from, replaced, stands_at, trimmed,
};
use crate::url_rule::{
    review_url, split_url, templated_at, url_plan_of, with_tail, UrlPlanView,
};
use crate::vars::rule_vars;
use vstd::prelude::*;

verus! {

/// Does `pat` stand nowhere in `s`?
pub open spec fn nowhere(s: Seq<char>, pat: Seq<char>) -> bool {
    forall|at: int| !#[trigger] stands_at(s, pat, at)
}

/// Does `pat` stand in `s` at `at`, and not before, from `from` on?
pub open spec fn first_at(s: Seq<char>, pat: Seq<char>, from: int, at: int) -> bool {
    &&& from <= at
    &&& stands_at(s, pat, at)
    &&& forall|i: int| from <= i < at ==> !#[trigger] stands_at(s, pat, i)
}

proof fn lemma_position(s: Seq<char>, pat: Seq<char>, from: int, at: int)
    requires
        0 <= from,
        first_at(s, pat, from, at),
    ensures
        position_from(s, pat, from) == Some(at),
    decreases at - from,
{
    if from < at {
        assert(!stands_at(s, pat, from));
        lemma_position(s, pat, from + 1, at);
    }
}

proof fn lemma_no_position(s: Seq<char>, pat: Seq<char>, from: int)
    requires
        0 <= from,
        forall|i: int| from <= i ==> !#[trigger] stands_at(s, pat, i),
    ensures
        position_from(s, pat, from) is None,
    decreases s.len() - from + 1,
{
    if from + pat.len() <= s.len() {
        assert(!stands_at(s, pat, from));
        lemma_no_position(s, pat, from + 1);
    }
}

/// A text holds another exactly where that stands in it somewhere.
pub proof fn law_contains_is_standing_somewhere(s: Seq<char>, pat: Seq<char>)
    ensures
        contains(s, pat) <==> exists|at: int| #[trigger] stands_at(s, pat, at),
{
    if nowhere(s, pat) {
        lemma_no_position(s, pat, 0);
    } else {
        let at = choose|at: int| #[trigger] stands_at(s, pat, at);
        lemma_found_from(s, pat, 0, at);
    }
}

proof fn lemma_found_from(s: Seq<char>, pat: Seq<char>, from: int, at: int)
    requires
        0 <= from <= at,
        stands_at(s, pat, at),
    ensures
        position_from(s, pat, from) is Some,
    decreases at - from,
{
    if !stands_at(s, pat, from) {
        lemma_found_from(s, pat, from + 1, at);
    }
}

/// How the options behind `text` are taken off: `url` is what is left, `suffix` the options. A
/// script among them is run with what is left, and its answer is `last`.
spec fn split_lines(
    place: Place,
    text: Seq<char>,
    url: Seq<char>,
    suffix: UrlSuffixView,
    last: Seq<char>,
) -> Seq<Line> {
    let split = (QuestionView::SplitSuffix(text), AnswerView::Split(url, suffix));
    match suffix.js {
        None => seq![split],
        Some(script) => seq![
            split,
            (
                QuestionView::EvalScript { script, vars: rule_vars(place, trimmed(url)) },
                AnswerView::Text(last),
            ),
        ],
    }
}

/// The address once its options are taken off: what is left, or what the script among the options
/// answered.
spec fn split_end(url: Seq<char>, suffix: UrlSuffixView, last: Seq<char>) -> (
    Seq<char>,
    UrlSuffixView,
) {
    (
        if suffix.js is None {
            url
        } else {
            last
        },
        UrlSuffixView { js: None, ..suffix },
    )
}

proof fn lemma_split_url(
    text: Seq<char>,
    place: Place,
    url: Seq<char>,
    suffix: UrlSuffixView,
    last: Seq<char>,
)
    ensures
        plays(
            |a: Seq<AnswerView>| split_url(text, place, a),
            split_lines(place, text, url, suffix, last),
            split_end(url, suffix, last),
        ),
{
    let whole = |a: Seq<AnswerView>| split_url(text, place, a);
    let question = QuestionView::SplitSuffix(text);
    let first = |a: Seq<AnswerView>| ask_split(a, question);
    let end = split_end(url, suffix, last);
    lemma_split(question, url, suffix);
    let line = seq![(question, AnswerView::Split(url, suffix))];
    match suffix.js {
        None => {
            let next = |a: Seq<AnswerView>| Outcome::Done((url, suffix), a);
            lemma_silent(next, (url, suffix));
            lemma_then(first, line, (url, suffix), next, Seq::empty(), (url, suffix), whole);
            assert(line + Seq::<Line>::empty() =~= split_lines(place, text, url, suffix, last));
            assert(end == (url, suffix));
        },
        Some(script) => {
            let eval = QuestionView::EvalScript { script, vars: rule_vars(place, trimmed(url)) };
            let next = |a: Seq<AnswerView>|
                ask_text(a, eval).then_with(
                    |u: Seq<char>, rest: Seq<AnswerView>|
                        Outcome::Done((u, UrlSuffixView { js: None, ..suffix }), rest),
                );
            lemma_one(next, eval, AnswerView::Text(last), end);
            let line2 = seq![(eval, AnswerView::Text(last))];
            lemma_then(first, line, (url, suffix), next, line2, end, whole);
            assert(line + line2 =~= split_lines(place, text, url, suffix, last));
        },
    }
}

/// What a script starts from: what stands in front of it, trimmed, or the whole rule where nothing
/// does.
spec fn starting_from(raw: Seq<char>, front: Seq<char>) -> Seq<char> {
    if is_blank(front) {
        raw
    } else {
        trimmed(front)
    }
}

proof fn lemma_script_address(
    rule_url: Seq<char>,
    place: Place,
    script: Seq<char>,
    result: Seq<char>,
    value: Seq<char>,
    url: Seq<char>,
    suffix: UrlSuffixView,
    last: Seq<char>,
)
    requires
        url_plan_of(templated_at(rule_url, place)) == (UrlPlanView::Script { script, result }),
    ensures
        plays(
            |a: Seq<AnswerView>| review_url(rule_url, place, a),
            seq![
                (
                    QuestionView::EvalScript { script, vars: rule_vars(place, result) },
                    AnswerView::Text(value),
                ),
            ] + split_lines(place, value, url, suffix, last),
            split_end(url, suffix, last),
        ),
{
    reveal(review_url);
    let eval = QuestionView::EvalScript { script, vars: rule_vars(place, result) };
    lemma_text(eval, value);
    lemma_split_url(value, place, url, suffix, last);
    lemma_then(
        |a: Seq<AnswerView>| ask_text(a, eval),
        seq![(eval, AnswerView::Text(value))],
        value,
        |a: Seq<AnswerView>| split_url(value, place, a),
        split_lines(place, value, url, suffix, last),
        split_end(url, suffix, last),
        |a: Seq<AnswerView>| review_url(rule_url, place, a),
    );
}

proof fn lemma_lines(
    place: Place,
    first: Line,
    text: Seq<char>,
    url: Seq<char>,
    suffix: UrlSuffixView,
    last: Seq<char>,
)
    ensures
        suffix.js is None ==> seq![first] + split_lines(place, text, url, suffix, last) == seq![
            first,
            (QuestionView::SplitSuffix(text), AnswerView::Split(url, suffix)),
        ] && split_end(url, suffix, last) == (url, suffix),
        suffix.js matches Some(js) ==> seq![first] + split_lines(place, text, url, suffix, last)
            == seq![
            first,
            (QuestionView::SplitSuffix(text), AnswerView::Split(url, suffix)),
            (
                QuestionView::EvalScript { script: js, vars: rule_vars(place, trimmed(url)) },
                AnswerView::Text(last),
            ),
        ],
{
    let lines = seq![first] + split_lines(place, text, url, suffix, last);
    let split = (QuestionView::SplitSuffix(text), AnswerView::Split(url, suffix));
    match suffix.js {
        None => {
            assert(lines =~= seq![first, split]);
        },
        Some(js) => {
            let eval = (
                QuestionView::EvalScript { script: js, vars: rule_vars(place, trimmed(url)) },
                AnswerView::Text(last),
            );
            assert(lines =~= seq![first, split, eval]);
        },
    }
}

/// A rule with the mark `@js:`, in upper or lower case: the script behind the first such mark is
/// run with what stands in front of it, and the address is what the script answered, its options
/// taken off.
pub proof fn law_script_behind_mark_makes_the_address(
    rule_url: Seq<char>,
    place: Place,
    front: Seq<char>,
    mark: Seq<char>,
    script: Seq<char>,
    value: Seq<char>,
    url: Seq<char>,
    suffix: UrlSuffixView,
    last: Seq<char>,
)
    requires
        templated_at(rule_url, place) == front + mark + script,
        mark.len() == 4,
        first_at(lowered(front + mark + script), "@js:"@, 0, front.len() as int),
    ensures
        suffix.js is None ==> plays(
            |a: Seq<AnswerView>| review_url(rule_url, place, a),
            seq![
                (
                    QuestionView::EvalScript {
                        script: trimmed(script),
                        vars: rule_vars(place, if is_blank(front) {
                            front + mark + script
                        } else {
                            trimmed(front)
                        }),
                    },
                    AnswerView::Text(value),
                ),
                (QuestionView::SplitSuffix(value), AnswerView::Split(url, suffix)),
            ],
            (url, suffix),
        ),
        suffix.js matches Some(js) ==> plays(
            |a: Seq<AnswerView>| review_url(rule_url, place, a),
            seq![
                (
                    QuestionView::EvalScript {
                        script: trimmed(script),
                        vars: rule_vars(place, if is_blank(front) {
                            front + mark + script
                        } else {
                            trimmed(front)
                        }),
                    },
                    AnswerView::Text(value),
                ),
                (QuestionView::SplitSuffix(value), AnswerView::Split(url, suffix)),
                (
                    QuestionView::EvalScript { script: js, vars: rule_vars(place, trimmed(url)) },
                    AnswerView::Text(last),
                ),
            ],
            (last, UrlSuffixView { js: None, ..suffix }),
        ),
{
    reveal_strlit("@js:");
    let raw = front + mark + script;
    let at = front.len() as int;
    lemma_position(lowered(raw), "@js:"@, 0, at);
    assert(raw.take(at) =~= front);
    assert(raw.skip(at + 4) =~= script);
    lemma_script_address(
        rule_url,
        place,
        trimmed(script),
        starting_from(raw, front),
        value,
        url,
        suffix,
        last,
    );
    let eval = (
        QuestionView::EvalScript {
            script: trimmed(script),
            vars: rule_vars(place, starting_from(raw, front)),
        },
        AnswerView::Text(value),
    );
    lemma_lines(place, eval, value, url, suffix, last);
}

/// A rule that begins with `js:`, in upper or lower case, and has no other mark: the script behind
/// it is run with the whole rule, and the address is what the script answered, its options taken
/// off.
pub proof fn law_script_rule_makes_the_address(
    rule_url: Seq<char>,
    place: Place,
    mark: Seq<char>,
    script: Seq<char>,
    value: Seq<char>,
    url: Seq<char>,
    suffix: UrlSuffixView,
    last: Seq<char>,
)
    requires
        templated_at(rule_url, place) == mark + script,
        mark.len() == 3,
        stands_at(lowered(mark + script), "js:"@, 0),
        nowhere(lowered(mark + script), "@js:"@),
        nowhere(lowered(mark + script), "<js>"@),
    ensures
        suffix.js is None ==> plays(
            |a: Seq<AnswerView>| review_url(rule_url, place, a),
            seq![
                (
                    QuestionView::EvalScript {
                        script: trimmed(script),
                        vars: rule_vars(place, mark + script),
                    },
                    AnswerView::Text(value),
                ),
                (QuestionView::SplitSuffix(value), AnswerView::Split(url, suffix)),
            ],
            (url, suffix),
        ),
        suffix.js matches Some(js) ==> plays(
            |a: Seq<AnswerView>| review_url(rule_url, place, a),
            seq![
                (
                    QuestionView::EvalScript {
                        script: trimmed(script),
                        vars: rule_vars(place, mark + script),
                    },
                    AnswerView::Text(value),
                ),
                (QuestionView::SplitSuffix(value), AnswerView::Split(url, suffix)),
                (
                    QuestionView::EvalScript { script: js, vars: rule_vars(place, trimmed(url)) },
                    AnswerView::Text(last),
                ),
            ],
            (last, UrlSuffixView { js: None, ..suffix }),
        ),
{
    let raw = mark + script;
    lemma_no_position(lowered(raw), "@js:"@, 0);
    lemma_no_position(lowered(raw), "<js>"@, 0);
    assert(raw.skip(3) =~= script);
    lemma_script_address(rule_url, place, trimmed(script), raw, value, url, suffix, last);
    let eval = (
        QuestionView::EvalScript { script: trimmed(script), vars: rule_vars(place, raw) },
        AnswerView::Text(value),
    );
    lemma_lines(place, eval, value, url, suffix, last);
}

/// A rule with a script between the tags `<js>` and `</js>`, in upper or lower case: the script is
/// run with what stands in front of it. The text behind the tags, trimmed, goes behind what the
/// script answered, or holds it wherever it says `@result`; that is the address, its options taken
/// off.
pub proof fn law_script_between_tags_makes_the_address(
    rule_url: Seq<char>,
    place: Place,
    front: Seq<char>,
    open_tag: Seq<char>,
    script: Seq<char>,
    close_tag: Seq<char>,
    behind: Seq<char>,
    value: Seq<char>,
    text: Seq<char>,
    url: Seq<char>,
    suffix: UrlSuffixView,
    last: Seq<char>,
)
    requires
        trimmed(behind).len() == 0 ==> text == value,
        trimmed(behind).len() > 0 && nowhere(trimmed(behind), "@result"@) ==> text == value
            + trimmed(behind),
        trimmed(behind).len() > 0 && !nowhere(trimmed(behind), "@result"@) ==> text == replaced(
            trimmed(behind),
            "@result"@,
            value,
        ),
        templated_at(rule_url, place) == front + open_tag + script + close_tag + behind,
        open_tag.len() == 4,
        close_tag.len() == 5,
        nowhere(lowered(front + open_tag + script + close_tag + behind), "@js:"@),
        first_at(
            lowered(front + open_tag + script + close_tag + behind),
            "<js>"@,
            0,
            front.len() as int,
        ),
        first_at(
            lowered(front + open_tag + script + close_tag + behind),
            "</js>"@,
            (front.len() + 4) as int,
            (front.len() + 4 + script.len()) as int,
        ),
    ensures
        suffix.js is None ==> plays(
            |a: Seq<AnswerView>| review_url(rule_url, place, a),
            seq![
                (
                    QuestionView::EvalScript {
                        script: script,
                        vars: rule_vars(place, if is_blank(front) {
                            front + open_tag + script + close_tag + behind
                        } else {
                            trimmed(front)
                        }),
                    },
                    AnswerView::Text(value),
                ),
                (QuestionView::SplitSuffix(text), AnswerView::Split(url, suffix)),
            ],
            (url, suffix),
        ),
        suffix.js matches Some(js) ==> plays(
            |a: Seq<AnswerView>| review_url(rule_url, place, a),
            seq![
                (
                    QuestionView::EvalScript {
                        script: script,
                        vars: rule_vars(place, if is_blank(front) {
                            front + open_tag + script + close_tag + behind
                        } else {
                            trimmed(front)
                        }),
                    },
                    AnswerView::Text(value),
                ),
                (QuestionView::SplitSuffix(text), AnswerView::Split(url, suffix)),
                (
                    QuestionView::EvalScript { script: js, vars: rule_vars(place, trimmed(url)) },
                    AnswerView::Text(last),
                ),
            ],
            (last, UrlSuffixView { js: None, ..suffix }),
        ),
{
    reveal(review_url);
    reveal_strlit("<js>");
    reveal_strlit("</js>");
    let raw = front + open_tag + script + close_tag + behind;
    let low = lowered(raw);
    let tag = front.len() as int;
    let end = (front.len() + 4 + script.len()) as int;
    let tail = trimmed(behind);
    lemma_no_position(low, "@js:"@, 0);
    lemma_position(low, "<js>"@, 0, tag);
    lemma_position(low, "</js>"@, tag + 4, end);
    law_contains_is_standing_somewhere(tail, "@result"@);
    assert(raw.take(tag) =~= front);
    assert(raw.subrange(tag + 4, end) =~= script);
    assert(raw.skip(end + 5) =~= behind);
    let eval = QuestionView::EvalScript {
        script,
        vars: rule_vars(place, starting_from(raw, front)),
    };
    assert(text == with_tail(value, tail));
    lemma_text(eval, value);
    lemma_split_url(text, place, url, suffix, last);
    lemma_then(
        |a: Seq<AnswerView>| ask_text(a, eval),
        seq![(eval, AnswerView::Text(value))],
        value,
        |a: Seq<AnswerView>| split_url(text, place, a),
        split_lines(place, text, url, suffix, last),
        split_end(url, suffix, last),
        |a: Seq<AnswerView>| review_url(rule_url, place, a),
    );
    lemma_lines(place, (eval, AnswerView::Text(value)), text, url, suffix, last);
}

/// A rule without a script: the address is the rule with its placeholders filled in, its options
/// taken off.
pub proof fn law_rule_without_script_is_the_address(
    rule_url: Seq<char>,
    place: Place,
    url: Seq<char>,
    suffix: UrlSuffixView,
    last: Seq<char>,
)
    requires
        nowhere(lowered(templated_at(rule_url, place)), "@js:"@),
        nowhere(lowered(templated_at(rule_url, place)), "<js>"@),
        !stands_at(lowered(templated_at(rule_url, place)), "js:"@, 0),
    ensures
        suffix.js is None ==> plays(
            |a: Seq<AnswerView>| review_url(rule_url, place, a),
            seq![
                (
                    QuestionView::SplitSuffix(templated_at(rule_url, place)),
                    AnswerView::Split(url, suffix),
                ),
            ],
            (url, suffix),
        ),
        suffix.js matches Some(js) ==> plays(
            |a: Seq<AnswerView>| review_url(rule_url, place, a),
            seq![
                (
                    QuestionView::SplitSuffix(templated_at(rule_url, place)),
                    AnswerView::Split(url, suffix),
                ),
                (
                    QuestionView::EvalScript { script: js, vars: rule_vars(place, trimmed(url)) },
                    AnswerView::Text(last),
                ),
            ],
            (last, UrlSuffixView { js: None, ..suffix }),
        ),
{
    reveal(review_url);
    let raw = templated_at(rule_url, place);
    lemma_no_position(lowered(raw), "@js:"@, 0);
    lemma_no_position(lowered(raw), "<js>"@, 0);
    lemma_split_url(raw, place, url, suffix, last);
    let part = |a: Seq<AnswerView>| split_url(raw, place, a);
    let whole = |a: Seq<AnswerView>| review_url(rule_url, place, a);
    let nothing = |a: Seq<AnswerView>| Outcome::Done((), a);
    lemma_silent(nothing, ());
    lemma_then(
        nothing,
        Seq::empty(),
        (),
        part,
        split_lines(place, raw, url, suffix, last),
        split_end(url, suffix, last),
        whole,
    );
    assert(Seq::<Line>::empty() + split_lines(place, raw, url, suffix, last) =~= split_lines(
        place,
        raw,
        url,
        suffix,
        last,
    ));
    let split = (QuestionView::SplitSuffix(raw), AnswerView::Split(url, suffix));
    if let Some(script) = suffix.js {
        assert(split_lines(place, raw, url, suffix, last) =~= seq![
            split,
            (
                QuestionView::EvalScript { script, vars: rule_vars(place, trimmed(url)) },
                AnswerView::Text(last),
            ),
        ]);
    } else {
        assert(split_end(url, suffix, last) == (url, suffix));
    }
}

/// A rule with a tag `<js>` that is not closed: the options are taken off the rule as it is, and no
/// script is run.
pub proof fn law_unclosed_tag_runs_no_script(
    rule_url: Seq<char>,
    place: Place,
    tag: int,
    url: Seq<char>,
    suffix: UrlSuffixView,
)
    requires
        nowhere(lowered(templated_at(rule_url, place)), "@js:"@),
        first_at(lowered(templated_at(rule_url, place)), "<js>"@, 0, tag),
        forall|i: int|
            tag + 4 <= i ==> !#[trigger] stands_at(
                lowered(templated_at(rule_url, place)),
                "</js>"@,
                i,
            ),
    ensures
        plays(
            |a: Seq<AnswerView>| review_url(rule_url, place, a),
            seq![
                (
                    QuestionView::SplitSuffix(templated_at(rule_url, place)),
                    AnswerView::Split(url, suffix),
                ),
            ],
            (url, suffix),
        ),
{
    reveal(review_url);
    let raw = templated_at(rule_url, place);
    lemma_no_position(lowered(raw), "@js:"@, 0);
    lemma_position(lowered(raw), "<js>"@, 0, tag);
    lemma_no_position(lowered(raw), "</js>"@, tag + 4);
    lemma_one(
        |a: Seq<AnswerView>| review_url(rule_url, place, a),
        QuestionView::SplitSuffix(raw),
        AnswerView::Split(url, suffix),
        (url, suffix),
    );
}

/// Does the method say that a body is sent?
spec fn says_post(method: Option<Seq<char>>) -> bool {
    method matches Some(method) && lowered(method) == "post"@
}

/// How a response is changed by the script among the options, whose answer is `body`.
spec fn body_lines(
    place: Place,
    suffix: UrlSuffixView,
    response: FetchResponseView,
    body: Seq<char>,
) -> Seq<Line> {
    match suffix.body_js {
        None => Seq::empty(),
        Some(script) => seq![
            (
                QuestionView::EvalScript { script, vars: rule_vars(place, response.body) },
                AnswerView::Text(body),
            ),
        ],
    }
}

/// The request that is made of an address and its options.
spec fn is_request(
    request: HttpRequestView,
    source: BookSource,
    place: Place,
    url: Seq<char>,
    suffix: UrlSuffixView,
    bridge: Pairs,
) -> bool {
    &&& request.url == url
    &&& by_name(request.headers) == (match suffix.headers {
        Some(extra) => by_name(bridge).union_prefer_right(by_name(extra)),
        None => by_name(bridge),
    })
    &&& distinct_names(bridge) ==> distinct_names(request.headers)
    &&& request.timeout_secs == 15
    &&& request.charset == suffix.charset
    &&& request.retry == suffix.retry
    &&& match source.proxy_url {
        Some(proxy) => request.proxy == Some(proxy@),
        None => request.proxy is None,
    }
    &&& match suffix.body {
        Some(body) => if says_post(suffix.method) {
            request.body == Some(templated_at(body, place))
        } else {
            request.body is None
        },
        None => request.body is None,
    }
}

proof fn lemma_post()
    ensures
        lowered("POST"@) == "post"@,
{
    reveal_strlit("POST");
    reveal_strlit("post");
    assert(lowered("POST"@) =~= "post"@);
}

proof fn lemma_requested(
    source: BookSource,
    place: Place,
    url: Seq<char>,
    suffix: UrlSuffixView,
    bridge: Pairs,
    response: FetchResponseView,
    body: Seq<char>,
) -> (request: HttpRequestView)
    ensures
        is_request(request, source, place, url, suffix, bridge),
        plays(
            |a: Seq<AnswerView>| requested(source, place, url, suffix, a),
            seq![
                (QuestionView::BridgeHeaders, AnswerView::Pairs(bridge)),
                (QuestionView::AcquireRate, AnswerView::Ready),
                (
                    if says_post(suffix.method) {
                        QuestionView::Post(request)
                    } else {
                        QuestionView::Get(request)
                    },
                    AnswerView::Response(response),
                ),
            ] + body_lines(place, suffix, response, body),
            (FetchResponseView {
                url: response.url,
                body: if suffix.body_js is Some {
                    body
                } else {
                    response.body
                },
            }),
        ),
{
    reveal(requested);
    lemma_post();
    let request = request_of(source, place, url, suffix, bridge);
    if let Some(extra) = suffix.headers {
        law_options_headers_come_first(bridge, extra);
    }
    let question = send(suffix, request);
    let end = FetchResponseView {
        url: response.url,
        body: if suffix.body_js is Some {
            body
        } else {
            response.body
        },
    };
    let whole = |a: Seq<AnswerView>| requested(source, place, url, suffix, a);
    let turn = |a: Seq<AnswerView>|
        ask_ready(a, QuestionView::AcquireRate).then_with(
            |done: (), rest: Seq<AnswerView>|
                ask_response(rest, question).then_with(
                    |r: FetchResponseView, rest: Seq<AnswerView>|
                        scripted_body(place, suffix, r, rest),
                ),
        );
    let sent = |a: Seq<AnswerView>|
        ask_response(a, question).then_with(
            |r: FetchResponseView, rest: Seq<AnswerView>| scripted_body(place, suffix, r, rest),
        );
    let scripted = |a: Seq<AnswerView>| scripted_body(place, suffix, response, a);
    let lines = body_lines(place, suffix, response, body);
    match suffix.body_js {
        Some(script) => {
            let vars = rule_vars(place, response.body);
            lemma_one(
                scripted,
                QuestionView::EvalScript { script, vars },
                AnswerView::Text(body),
                end,
            );
        },
        None => {
            lemma_silent(scripted, end);
        },
    }
    let sent_line = seq![(question, AnswerView::Response(response))];
    let turn_line = seq![(QuestionView::AcquireRate, AnswerView::Ready)];
    let bridge_line = seq![(QuestionView::BridgeHeaders, AnswerView::Pairs(bridge))];
    lemma_response(question, response);
    lemma_then(
        |a: Seq<AnswerView>| ask_response(a, question),
        sent_line,
        response,
        scripted,
        lines,
        end,
        sent,
    );
    lemma_ready(QuestionView::AcquireRate);
    lemma_then(
        |a: Seq<AnswerView>| ask_ready(a, QuestionView::AcquireRate),
        turn_line,
        (),
        sent,
        sent_line + lines,
        end,
        turn,
    );
    lemma_pairs(QuestionView::BridgeHeaders, bridge);
    lemma_then(
        |a: Seq<AnswerView>| ask_pairs(a, QuestionView::BridgeHeaders),
        bridge_line,
        bridge,
        turn,
        turn_line + (sent_line + lines),
        end,
        whole,
    );
    assert(bridge_line + (turn_line + (sent_line + lines)) =~= seq![
        (QuestionView::BridgeHeaders, AnswerView::Pairs(bridge)),
        (QuestionView::AcquireRate, AnswerView::Ready),
        (question, AnswerView::Response(response)),
    ] + lines);
    request
}

/// How a response is asked for. The address, of which `address` is the dialog, is made absolute
/// against that of the chapter; then, when it is the source's turn, its request is sent: once, with
/// the headers of the bridge and of the options, and with a body only where the method says so. A
/// script among the options has the last word on the text of the response.
pub proof fn law_response_is_asked_for(
    source: BookSource,
    place: Place,
    rule_url: Seq<char>,
    address: Seq<Line>,
    found: Seq<char>,
    suffix: UrlSuffixView,
    url: Seq<char>,
    bridge: Pairs,
    response: FetchResponseView,
    body: Seq<char>,
) -> (sent: (HttpRequestView, QuestionView))
    requires
        plays(|a: Seq<AnswerView>| review_url(rule_url, place, a), address, (found, suffix)),
        url.len() > 0,
    ensures
        sent.0.url == url,
        suffix.headers is None ==> by_name(sent.0.headers) == by_name(bridge),
        suffix.headers matches Some(extra) ==> by_name(sent.0.headers) == by_name(
            bridge,
        ).union_prefer_right(by_name(extra)),
        distinct_names(bridge) ==> distinct_names(sent.0.headers),
        sent.0.timeout_secs == 15,
        sent.0.charset == suffix.charset,
        sent.0.retry == suffix.retry,
        source.proxy_url is None ==> sent.0.proxy is None,
        source.proxy_url matches Some(proxy) ==> sent.0.proxy == Some(proxy@),
        suffix.method is Some && lowered(suffix.method->0) == "post"@ ==> sent.1
            == QuestionView::Post(sent.0),
        suffix.method is None || lowered(suffix.method->0) != "post"@ ==> sent.1
            == QuestionView::Get(sent.0),
        sent.1 is Post && suffix.body is Some ==> sent.0.body == Some(
            templated_at(suffix.body->0, place),
        ),
        sent.1 is Get || suffix.body is None ==> sent.0.body is None,
        suffix.body_js is None ==> plays(
            |a: Seq<AnswerView>| fetched(source, place, rule_url, a),
            seq![
                (QuestionView::OpenBridge, AnswerView::Ready),
                (QuestionView::SetHeaders(source.header.deep_view()), AnswerView::Ready),
            ] + address + seq![
                (
                    QuestionView::Resolve { url: trimmed(found), base: place.chapter.url@ },
                    AnswerView::Text(url),
                ),
                (QuestionView::BridgeHeaders, AnswerView::Pairs(bridge)),
                (QuestionView::AcquireRate, AnswerView::Ready),
                (sent.1, AnswerView::Response(response)),
            ],
            response,
        ),
        suffix.body_js is Some ==> plays(
            |a: Seq<AnswerView>| fetched(source, place, rule_url, a),
            seq![
                (QuestionView::OpenBridge, AnswerView::Ready),
                (QuestionView::SetHeaders(source.header.deep_view()), AnswerView::Ready),
            ] + address + seq![
                (
                    QuestionView::Resolve { url: trimmed(found), base: place.chapter.url@ },
                    AnswerView::Text(url),
                ),
                (QuestionView::BridgeHeaders, AnswerView::Pairs(bridge)),
                (QuestionView::AcquireRate, AnswerView::Ready),
                (sent.1, AnswerView::Response(response)),
                (
                    QuestionView::EvalScript {
                        script: suffix.body_js->0,
                        vars: rule_vars(place, response.body),
                    },
                    AnswerView::Text(body),
                ),
            ],
            (FetchResponseView { url: response.url, body }),
        ),
{
    reveal(fetched);
    let request = lemma_requested(source, place, url, suffix, bridge, response, body);
    let end = FetchResponseView {
        url: response.url,
        body: if suffix.body_js is Some {
            body
        } else {
            response.body
        },
    };
    let question = if says_post(suffix.method) {
        QuestionView::Post(request)
    } else {
        QuestionView::Get(request)
    };
    let sent = seq![
        (QuestionView::BridgeHeaders, AnswerView::Pairs(bridge)),
        (QuestionView::AcquireRate, AnswerView::Ready),
        (question, AnswerView::Response(response)),
    ] + body_lines(place, suffix, response, body);
    let resolve = QuestionView::Resolve { url: trimmed(found), base: place.chapter.url@ };
    let header = QuestionView::SetHeaders(source.header.deep_view());
    let parts = (found, suffix);
    let located = |a: Seq<AnswerView>|
        ask_text(a, resolve).then_with(
            |u: Seq<char>, rest: Seq<AnswerView>|
                if u.len() == 0 {
                    Outcome::Fail(ReviewError::UrlEmpty)
                } else {
                    requested(source, place, u, suffix, rest)
                },
        );
    let addressed = |a: Seq<AnswerView>|
        review_url(rule_url, place, a).then_with(
            |parts: (Seq<char>, UrlSuffixView), rest: Seq<AnswerView>|
                ask_text(
                    rest,
                    QuestionView::Resolve { url: trimmed(parts.0), base: place.chapter.url@ },
                ).then_with(
                    |u: Seq<char>, rest: Seq<AnswerView>|
                        if u.len() == 0 {
                            Outcome::Fail(ReviewError::UrlEmpty)
                        } else {
                            requested(source, place, u, parts.1, rest)
                        },
                ),
        );
    let headed = |a: Seq<AnswerView>|
        ask_ready(a, header).then_with(|done: (), rest: Seq<AnswerView>| addressed(rest));
    let resolve_line = seq![(resolve, AnswerView::Text(url))];
    let header_line = seq![(header, AnswerView::Ready)];
    let open_line = seq![(QuestionView::OpenBridge, AnswerView::Ready)];
    lemma_text(resolve, url);
    lemma_then(
        |a: Seq<AnswerView>| ask_text(a, resolve),
        resolve_line,
        url,
        |a: Seq<AnswerView>| requested(source, place, url, suffix, a),
        sent,
        end,
        located,
    );
    lemma_then(
        |a: Seq<AnswerView>| review_url(rule_url, place, a),
        address,
        parts,
        located,
        resolve_line + sent,
        end,
        addressed,
    );
    lemma_ready(header);
    lemma_then(
        |a: Seq<AnswerView>| ask_ready(a, header),
        header_line,
        (),
        addressed,
        address + (resolve_line + sent),
        end,
        headed,
    );
    lemma_ready(QuestionView::OpenBridge);
    lemma_then(
        |a: Seq<AnswerView>| ask_ready(a, QuestionView::OpenBridge),
        open_line,
        (),
        headed,
        header_line + (address + (resolve_line + sent)),
        end,
        |a: Seq<AnswerView>| fetched(source, place, rule_url, a),
    );
    let send_line = (question, AnswerView::Response(response));
    assert(sent[2] == send_line);
    let all = open_line + (header_line + (address + (resolve_line + sent)));
    let start = seq![(QuestionView::OpenBridge, AnswerView::Ready), (header, AnswerView::Ready)];
    match suffix.body_js {
        None => {
            assert(all =~= start + address + seq![
                (resolve, AnswerView::Text(url)),
                (QuestionView::BridgeHeaders, AnswerView::Pairs(bridge)),
                (QuestionView::AcquireRate, AnswerView::Ready),
                send_line,
            ]);
            assert(end == response);
        },
        Some(script) => {
            assert(all =~= start + address + seq![
                (resolve, AnswerView::Text(url)),
                (QuestionView::BridgeHeaders, AnswerView::Pairs(bridge)),
                (QuestionView::AcquireRate, AnswerView::Ready),
                send_line,
                (
                    QuestionView::EvalScript { script, vars: rule_vars(place, response.body) },
                    AnswerView::Text(body),
                ),
            ]);
        },
    }
    (request, question)
}

/// An address that comes out empty is not requested: that is a failure.
pub proof fn law_empty_address_is_a_failure(
    source: BookSource,
    place: Place,
    rule_url: Seq<char>,
    address: Seq<Line>,
    found: Seq<char>,
    suffix: UrlSuffixView,
)
    requires
        plays(|a: Seq<AnswerView>| review_url(rule_url, place, a), address, (found, suffix)),
    ensures
        fetched(
            source,
            place,
            rule_url,
            seq![AnswerView::Ready, AnswerView::Ready] + answers_of(address) + seq![
                AnswerView::Text(Seq::empty()),
            ],
        ) == Outcome::<FetchResponseView>::Fail(ReviewError::UrlEmpty),
{
    reveal(fetched);
    let empty = AnswerView::Text(Seq::empty());
    let all = seq![AnswerView::Ready, AnswerView::Ready] + answers_of(address) + seq![empty];
    let part = |a: Seq<AnswerView>| review_url(rule_url, place, a);
    assert(all.drop_first().drop_first() =~= answers_of(address) + seq![empty]);
    assert(part(answers_of(address) + seq![empty]) == Outcome::Done((found, suffix), seq![empty]));
}

} // verus!
