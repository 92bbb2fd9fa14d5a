//! What is shown of the values that go in and come out: each field as it is.

use crate::content::{ContentFields, ContentProtocol};
use crate::dialog::{
    Answer, AnswerView, FetchResponse, HttpRequest, Outcome, Progress, Question, QuestionView, Step,
    UrlSuffix,
};
use crate::item::Reading;
use crate::json::{object_members, Json, JsonNumber, JsonView};
use crate::model::{DetailPage, ReviewError, ReviewItem, SummaryResult};
use crate::page_run::Page;
use crate::summary::Entry;
use crate::vars::{RuleContext, RuleVars};
use vstd::prelude::*;

verus! {

/// A review is shown field by field, and so are its replies.
pub proof fn law_review_is_shown_as_it_is(item: ReviewItem)
    ensures
        item.deep_view().id == item.id.deep_view(),
        item.deep_view().avatar == item.avatar.deep_view(),
        item.deep_view().name == item.name.deep_view(),
        item.deep_view().reply_to_name == item.reply_to_name.deep_view(),
        item.deep_view().badges == item.badges.deep_view(),
        item.deep_view().content == item.content.deep_view(),
        item.deep_view().image_url == item.image_url.deep_view(),
        item.deep_view().audio_url == item.audio_url.deep_view(),
        item.deep_view().time == item.time.deep_view(),
        item.deep_view().like_count == item.like_count,
        item.deep_view().reply_count == item.reply_count,
        item.deep_view().replies == item.replies.deep_view(),
{
    item.lemma_replies();
}

/// A page and a summary are shown field by field.
pub proof fn law_results_are_shown_as_they_are(
    page: DetailPage,
    summary: SummaryResult,
    paragraph: i64,
)
    ensures
        page.deep_view().items == page.items.deep_view(),
        page.deep_view().next_page_url == page.next_page_url.deep_view(),
        page.deep_view().has_more == page.has_more,
        summary.deep_view().counts == summary.counts@,
        summary.deep_view().keys.dom() == summary.keys@.dom(),
        summary.keys@.dom().contains(paragraph) ==> summary.deep_view().keys[paragraph]
            == summary.keys@[paragraph]@,
{
    assert(summary.deep_view().keys.dom() =~= summary.keys@.dom());
}

/// What scripts can read is shown field by field.
pub proof fn law_variables_are_shown_as_they_are(vars: RuleVars, context: RuleContext)
    ensures
        vars.deep_view().entries == vars.entries.deep_view(),
        vars.deep_view().context == vars.context.deep_view(),
        context.deep_view().chapter_title == context.chapter_title@,
        context.deep_view().chapter_url == context.chapter_url@,
        context.deep_view().chapter_index == context.chapter_index@,
        context.deep_view().book_name == context.book_name@,
        context.deep_view().book_author == context.book_author@,
        context.deep_view().book_url == context.book_url@,
{
}

/// What goes out with a request and what comes back is shown field by field.
pub proof fn law_requests_are_shown_as_they_are(
    request: HttpRequest,
    response: FetchResponse,
    suffix: UrlSuffix,
)
    ensures
        request.deep_view().url == request.url@,
        request.deep_view().headers == request.headers.deep_view(),
        request.deep_view().timeout_secs == request.timeout_secs,
        request.deep_view().body == request.body.deep_view(),
        request.deep_view().charset == request.charset.deep_view(),
        request.deep_view().proxy == request.proxy.deep_view(),
        request.deep_view().retry == request.retry,
        response.deep_view().url == response.url@,
        response.deep_view().body == response.body@,
        suffix.deep_view().headers == suffix.headers.deep_view(),
        suffix.deep_view().body == suffix.body.deep_view(),
        suffix.deep_view().method == suffix.method.deep_view(),
        suffix.deep_view().charset == suffix.charset.deep_view(),
        suffix.deep_view().retry == suffix.retry,
        suffix.deep_view().body_js == suffix.body_js.deep_view(),
        suffix.deep_view().js == suffix.js.deep_view(),
{
}

/// What is read of a page is shown field by field.
pub proof fn law_pages_are_shown_as_they_are(page: Page, entry: Entry, reading: Reading)
    ensures
        page.deep_view().url == page.url@,
        page.deep_view().body == page.body@,
        page.deep_view().texts == page.texts.deep_view(),
        entry.deep_view().paragraph == entry.paragraph,
        entry.deep_view().count == entry.count,
        entry.deep_view().key == entry.key@,
        reading.deep_view().rule == *reading.rule,
        reading.deep_view().base_url == reading.base_url@,
        reading.deep_view().content_rule == reading.content_rule@,
        reading.deep_view().role == reading.role,
{
}

/// What is read of a content object is shown field by field.
pub proof fn law_contents_are_shown_as_they_are(
    fields: ContentFields,
    said: ContentProtocol,
    number: JsonNumber,
)
    ensures
        fields.deep_view().text == fields.text.deep_view(),
        fields.deep_view().reply_to_name == fields.reply_to_name.deep_view(),
        fields.deep_view().image == fields.image.deep_view(),
        fields.deep_view().audio == fields.audio.deep_view(),
        fields.deep_view().time == fields.time.deep_view(),
        fields.deep_view().like_count == fields.like_count.deep_view(),
        fields.deep_view().reply_count == fields.reply_count.deep_view(),
        said.deep_view().text == said.text.deep_view(),
        said.deep_view().reply_to_name == said.reply_to_name.deep_view(),
        said.deep_view().image == said.image.deep_view(),
        said.deep_view().audio == said.audio.deep_view(),
        said.deep_view().time == said.time.deep_view(),
        said.deep_view().like_count == said.like_count,
        said.deep_view().reply_count == said.reply_count,
        number.deep_view().text == number.text@,
        number.deep_view().int == number.int,
        number.deep_view().uint == number.uint,
{
}

/// A JSON value is shown as what it is.
pub proof fn law_json_is_shown_as_it_is(value: Json)
    ensures
        match value {
            Json::Null => value.deep_view() is Null,
            Json::Bool(b) => value.deep_view() == JsonView::Bool(b),
            Json::Number(n) => value.deep_view() == JsonView::Number(n.deep_view()),
            Json::Text(s) => value.deep_view() == JsonView::Text(s@),
            Json::Array => value.deep_view() is Array,
            Json::Object(o) => value.deep_view() == JsonView::Object(object_members(o)),
        },
{
}

/// A question is shown as what it asks.
pub proof fn law_questions_are_shown_as_they_are(question: Question)
    ensures
        match question {
            Question::OpenBridge => question.deep_view() is OpenBridge,
            Question::SetHeaders(header) => question.deep_view() == QuestionView::SetHeaders(
                header.deep_view(),
            ),
            Question::EvalScript { script, vars } => question.deep_view()
                == (QuestionView::EvalScript { script: script@, vars: vars.deep_view() }),
            Question::SplitSuffix(text) => question.deep_view() == QuestionView::SplitSuffix(text@),
            Question::Resolve { url, base } => question.deep_view() == (QuestionView::Resolve {
                url: url@,
                base: base@,
            }),
            Question::BridgeHeaders => question.deep_view() is BridgeHeaders,
            Question::AcquireRate => question.deep_view() is AcquireRate,
            Question::Get(request) => question.deep_view() == QuestionView::Get(
                request.deep_view(),
            ),
            Question::Post(request) => question.deep_view() == QuestionView::Post(
                request.deep_view(),
            ),
            Question::AssignVars(vars) => question.deep_view() == QuestionView::AssignVars(
                vars.deep_view(),
            ),
            Question::ForkVars { level } => question.deep_view() == (QuestionView::ForkVars {
                level,
            }),
            Question::Elements { level, rule, text } => question.deep_view()
                == (QuestionView::Elements { level, rule: rule@, text: text@ }),
            Question::Field { level, rule, text } => question.deep_view() == (QuestionView::Field {
                level,
                rule: rule@,
                text: text@,
            }),
            Question::ReadFloat(text) => question.deep_view() == QuestionView::ReadFloat(text@),
        },
{
}

/// An answer is shown as what it says.
pub proof fn law_answers_are_shown_as_they_are(answer: Answer)
    ensures
        match answer {
            Answer::Ready => answer.deep_view() is Ready,
            Answer::Text(text) => answer.deep_view() == AnswerView::Text(text@),
            Answer::Texts(texts) => answer.deep_view() == AnswerView::Texts(texts.deep_view()),
            Answer::Number(n) => answer.deep_view() == AnswerView::Number(n),
            Answer::Pairs(pairs) => answer.deep_view() == AnswerView::Pairs(pairs.deep_view()),
            Answer::Split(url, suffix) => answer.deep_view() == AnswerView::Split(
                url@,
                suffix.deep_view(),
            ),
            Answer::Response(response) => answer.deep_view() == AnswerView::Response(
                response.deep_view(),
            ),
            Answer::Failed => answer.deep_view() is Failed,
        },
{
}

/// A step is the outcome that it agrees with: the same question, the same failure, or the same
/// result, with the answers left over that stand behind its position.
pub proof fn law_step_is_its_outcome(
    step: Step<String>,
    answers: Seq<AnswerView>,
    outcome: Outcome<Seq<char>>,
)
    requires
        step.agrees(answers, outcome),
    ensures
        step matches Step::Ask(question) ==> outcome is Ask && outcome->Ask_0
            == question.deep_view(),
        step matches Step::Fail(error) ==> outcome == Outcome::<Seq<char>>::Fail(error),
        step matches Step::Done(value, pos) ==> pos <= answers.len() && outcome == Outcome::Done(
            value@,
            answers.skip(pos as int),
        ),
{
}

/// A run waits on a question exactly where it is asked, and takes no answer where it waits on none.
pub proof fn law_run_waits_on_its_question(
    question: QuestionView,
    error: ReviewError,
    page: DetailPage,
    answer: AnswerView,
)
    ensures
        Progress::<DetailPage>::Ask(question).question() == Some(question),
        Progress::<DetailPage>::Fail(error).question() is None,
        Progress::Done(page).question() is None,
        !Progress::<DetailPage>::Fail(error).takes(answer),
        !Progress::Done(page).takes(answer),
{
}

} // verus!
