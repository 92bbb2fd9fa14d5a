//! The questions that a run puts to its surroundings, and the answers that carry it on.
//!
//! Rules, scripts and requests are carried out elsewhere. A run asks for one such step at a time
//! and goes on with what comes back, so it is a function of the answers that it was given.

use crate::model::{copy_text, copy_texts, ReviewError};
use crate::vars::{RuleVars, RuleVarsView};
use vstd::prelude::*;
use vstd::string::*;

verus! {

/// What may follow an address: options of the request and scripts to run around it.
#[derive(Debug, Clone, Default)]
pub struct UrlSuffix {
    pub headers: Option<Vec<(String, String)>>,
    pub body: Option<String>,
    pub method: Option<String>,
    pub charset: Option<String>,
    pub retry: u32,
    pub body_js: Option<String>,
    pub js: Option<String>,
}

/// The options of an address as a mathematical value.
#[verifier::ext_equal]
pub struct UrlSuffixView {
    pub headers: Option<Seq<(Seq<char>, Seq<char>)>>,
    pub body: Option<Seq<char>>,
    pub method: Option<Seq<char>>,
    pub charset: Option<Seq<char>>,
    pub retry: u32,
    pub body_js: Option<Seq<char>>,
    pub js: Option<Seq<char>>,
}

impl DeepView for UrlSuffix {
    type V = UrlSuffixView;

    open spec fn deep_view(&self) -> UrlSuffixView {
        UrlSuffixView {
            headers: self.headers.deep_view(),
            body: self.body.deep_view(),
            method: self.method.deep_view(),
            charset: self.charset.deep_view(),
            retry: self.retry,
            body_js: self.body_js.deep_view(),
            js: self.js.deep_view(),
        }
    }
}

/// What a request came back with: the address that answered, and the text.
#[derive(Debug, Clone, Default)]
pub struct FetchResponse {
    pub url: String,
    pub body: String,
}

/// A response as a mathematical value.
#[verifier::ext_equal]
pub struct FetchResponseView {
    pub url: Seq<char>,
    pub body: Seq<char>,
}

impl DeepView for FetchResponse {
    type V = FetchResponseView;

    open spec fn deep_view(&self) -> FetchResponseView {
        FetchResponseView { url: self.url@, body: self.body@ }
    }
}

/// A request to be sent.
#[derive(Debug, Clone, Default)]
pub struct HttpRequest {
    pub url: String,
    pub headers: Vec<(String, String)>,
    pub timeout_secs: u64,
    pub body: Option<String>,
    pub charset: Option<String>,
    pub proxy: Option<String>,
    pub retry: u32,
}

/// A request as a mathematical value.
#[verifier::ext_equal]
pub struct HttpRequestView {
    pub url: Seq<char>,
    pub headers: Seq<(Seq<char>, Seq<char>)>,
    pub timeout_secs: u64,
    pub body: Option<Seq<char>>,
    pub charset: Option<Seq<char>>,
    pub proxy: Option<Seq<char>>,
    pub retry: u32,
}

impl DeepView for HttpRequest {
    type V = HttpRequestView;

    open spec fn deep_view(&self) -> HttpRequestView {
        HttpRequestView {
            url: self.url@,
            headers: self.headers.deep_view(),
            timeout_secs: self.timeout_secs,
            body: self.body.deep_view(),
            charset: self.charset.deep_view(),
            proxy: self.proxy.deep_view(),
            retry: self.retry,
        }
    }
}

/// The level of the variables of a page.
pub const PAGE_LEVEL: u8 = 0;

/// The level of the variables of an item on a page.
pub const ITEM_LEVEL: u8 = 1;

/// The level of the variables of the replies that come with a review.
pub const INNER_LEVEL: u8 = 2;

/// The level of the variables of one reply that comes with a review.
pub const INNER_ITEM_LEVEL: u8 = 3;

/// One step that a run needs done.
///
/// Variables are kept in levels, so that what a rule sets for one review is not seen by the next.
#[derive(Debug, Clone)]
pub enum Question {
    /// Start a script bridge for the source, in place of the one in use.
    OpenBridge,
    /// Read the source's header setting, where there is one, and let the bridge use it.
    SetHeaders(Option<String>),
    /// Run a script on the bridge with these variables.
    EvalScript { script: String, vars: RuleVars },
    /// Take an address apart from the options behind it.
    SplitSuffix(String),
    /// Make an address absolute.
    Resolve { url: String, base: String },
    /// Tell the headers that the bridge uses now.
    BridgeHeaders,
    /// Wait for the source's turn to send a request.
    AcquireRate,
    /// Send a request without a body.
    Get(HttpRequest),
    /// Send a request with the given body.
    Post(HttpRequest),
    /// Let these be the variables of the lowest level.
    AssignVars(RuleVars),
    /// Let the variables of this level be a copy of those one level lower.
    ForkVars { level: u8 },
    /// Apply a rule that lists parts of a text, with the variables of a level.
    Elements { level: u8, rule: String, text: String },
    /// Apply a rule that finds one text in another, with the variables of a level.
    Field { level: u8, rule: String, text: String },
    /// Read a text as a floating-point number, cut to a whole one within the limits of `i64`.
    ReadFloat(String),
}

/// A question as a mathematical value.
#[verifier::ext_equal]
pub enum QuestionView {
    OpenBridge,
    SetHeaders(Option<Seq<char>>),
    EvalScript { script: Seq<char>, vars: RuleVarsView },
    SplitSuffix(Seq<char>),
    Resolve { url: Seq<char>, base: Seq<char> },
    BridgeHeaders,
    AcquireRate,
    Get(HttpRequestView),
    Post(HttpRequestView),
    AssignVars(RuleVarsView),
    ForkVars { level: u8 },
    Elements { level: u8, rule: Seq<char>, text: Seq<char> },
    Field { level: u8, rule: Seq<char>, text: Seq<char> },
    ReadFloat(Seq<char>),
}

impl DeepView for Question {
    type V = QuestionView;

    open spec fn deep_view(&self) -> QuestionView {
        match self {
            Question::OpenBridge => QuestionView::OpenBridge,
            Question::SetHeaders(header) => QuestionView::SetHeaders(header.deep_view()),
            Question::EvalScript { script, vars } => QuestionView::EvalScript {
                script: script@,
                vars: vars.deep_view(),
            },
            Question::SplitSuffix(text) => QuestionView::SplitSuffix(text@),
            Question::Resolve { url, base } => QuestionView::Resolve { url: url@, base: base@ },
            Question::BridgeHeaders => QuestionView::BridgeHeaders,
            Question::AcquireRate => QuestionView::AcquireRate,
            Question::Get(request) => QuestionView::Get(request.deep_view()),
            Question::Post(request) => QuestionView::Post(request.deep_view()),
            Question::AssignVars(vars) => QuestionView::AssignVars(vars.deep_view()),
            Question::ForkVars { level } => QuestionView::ForkVars { level: *level },
            Question::Elements { level, rule, text } => QuestionView::Elements {
                level: *level,
                rule: rule@,
                text: text@,
            },
            Question::Field { level, rule, text } => QuestionView::Field {
                level: *level,
                rule: rule@,
                text: text@,
            },
            Question::ReadFloat(text) => QuestionView::ReadFloat(text@),
        }
    }
}

/// What came of a step.
#[derive(Debug, Clone)]
pub enum Answer {
    /// It is done.
    Ready,
    /// A text was found.
    Text(String),
    /// Texts were found.
    Texts(Vec<String>),
    /// The text is a number, or it is not.
    Number(Option<i64>),
    /// Named values were found.
    Pairs(Vec<(String, String)>),
    /// The address, and the options behind it.
    Split(String, UrlSuffix),
    /// The request came back.
    Response(FetchResponse),
    /// The script or the request failed.
    Failed,
}

/// An answer as a mathematical value.
#[verifier::ext_equal]
pub enum AnswerView {
    Ready,
    Text(Seq<char>),
    Texts(Seq<Seq<char>>),
    Number(Option<i64>),
    Pairs(Seq<(Seq<char>, Seq<char>)>),
    Split(Seq<char>, UrlSuffixView),
    Response(FetchResponseView),
    Failed,
}

impl DeepView for Answer {
    type V = AnswerView;

    open spec fn deep_view(&self) -> AnswerView {
        match self {
            Answer::Ready => AnswerView::Ready,
            Answer::Text(text) => AnswerView::Text(text@),
            Answer::Texts(texts) => AnswerView::Texts(texts.deep_view()),
            Answer::Number(n) => AnswerView::Number(*n),
            Answer::Pairs(pairs) => AnswerView::Pairs(pairs.deep_view()),
            Answer::Split(url, suffix) => AnswerView::Split(url@, suffix.deep_view()),
            Answer::Response(response) => AnswerView::Response(response.deep_view()),
            Answer::Failed => AnswerView::Failed,
        }
    }
}

/// No list in memory has more elements than this.
pub const LIST_MAX: i64 = 9223372036854775806;

/// Is this the kind of answer that the question calls for?
pub open spec fn fits(question: QuestionView, answer: AnswerView) -> bool {
    match question {
        QuestionView::OpenBridge => answer is Ready,
        QuestionView::SetHeaders(_) => answer is Ready,
        QuestionView::EvalScript { .. } => answer is Text || answer is Failed,
        QuestionView::SplitSuffix(_) => answer is Split,
        QuestionView::Resolve { .. } => answer is Text,
        QuestionView::BridgeHeaders => answer is Pairs,
        QuestionView::AcquireRate => answer is Ready,
        QuestionView::Get(_) => answer is Response || answer is Failed,
        QuestionView::Post(_) => answer is Response || answer is Failed,
        QuestionView::AssignVars(_) => answer is Ready,
        QuestionView::ForkVars { .. } => answer is Ready,
        QuestionView::Elements { .. } => answer is Texts && answer->Texts_0.len() <= LIST_MAX,
        QuestionView::Field { .. } => answer is Text,
        QuestionView::ReadFloat(_) => answer is Number,
    }
}

/// Is this the kind of answer that the question calls for?
pub fn answers(question: &Question, answer: &Answer) -> (r: bool)
    ensures
        r == fits(question.deep_view(), answer.deep_view()),
{
    match (question, answer) {
        (Question::OpenBridge, Answer::Ready) => true,
        (Question::SetHeaders(_), Answer::Ready) => true,
        (Question::EvalScript { .. }, Answer::Text(_)) => true,
        (Question::EvalScript { .. }, Answer::Failed) => true,
        (Question::SplitSuffix(_), Answer::Split(..)) => true,
        (Question::Resolve { .. }, Answer::Text(_)) => true,
        (Question::BridgeHeaders, Answer::Pairs(_)) => true,
        (Question::AcquireRate, Answer::Ready) => true,
        (Question::Get(_), Answer::Response(_)) => true,
        (Question::Get(_), Answer::Failed) => true,
        (Question::Post(_), Answer::Response(_)) => true,
        (Question::Post(_), Answer::Failed) => true,
        (Question::AssignVars(_), Answer::Ready) => true,
        (Question::ForkVars { .. }, Answer::Ready) => true,
        (Question::Elements { .. }, Answer::Texts(texts)) => texts.len() as u64
            <= LIST_MAX as u64,
        (Question::Field { .. }, Answer::Text(_)) => true,
        (Question::ReadFloat(_), Answer::Number(_)) => true,
        _ => false,
    }
}

/// How far a part of a run gets with the answers at hand: to its next question, to a failure that
/// ends the run, or to its result. With a question and with a result come the answers that are
/// left over.
#[verifier::ext_equal]
pub enum Outcome<T> {
    Ask(QuestionView, Seq<AnswerView>),
    Fail(ReviewError),
    Done(T, Seq<AnswerView>),
}

impl<T> Outcome<T> {
    /// Where this part of a run comes to a result, the run goes on with `next`.
    pub open spec fn then_with<U>(
        self,
        next: spec_fn(T, Seq<AnswerView>) -> Outcome<U>,
    ) -> Outcome<U> {
        match self {
            Outcome::Ask(question, left) => Outcome::Ask(question, left),
            Outcome::Fail(error) => Outcome::Fail(error),
            Outcome::Done(value, rest) => next(value, rest),
        }
    }
}

/// How far a part of a run got: to its next question, to a failure that ends the run, or to its
/// result, with the position behind the last answer that it used.
#[derive(Debug)]
pub enum Step<T> {
    Ask(Question),
    Fail(ReviewError),
    Done(T, usize),
}

impl<T: DeepView> Step<T> {
    /// Is this step, taken with `answers`, the given outcome?
    pub open spec fn agrees(self, answers: Seq<AnswerView>, outcome: Outcome<T::V>) -> bool {
        match self {
            Step::Ask(question) => {
                outcome matches Outcome::Ask(asked, _) && asked == question.deep_view()
            },
            Step::Fail(error) => outcome == Outcome::<T::V>::Fail(error),
            Step::Done(value, pos) => {
                &&& pos <= answers.len()
                &&& outcome == Outcome::Done(value.deep_view(), answers.skip(pos as int))
            },
        }
    }
}

/// What a run needs next, or what ends it.
#[verifier::ext_equal]
pub enum Progress<T> {
    Ask(QuestionView),
    Fail(ReviewError),
    Done(T),
}

impl<T> Progress<T> {
    /// The question that the run waits on.
    pub open spec fn question(self) -> Option<QuestionView> {
        match self {
            Progress::Ask(question) => Some(question),
            _ => None,
        }
    }

    /// Does the run wait on a question that calls for such an answer?
    pub open spec fn takes(self, answer: AnswerView) -> bool {
        self matches Progress::Ask(question) && fits(question, answer)
    }
}

/// A copy of the named values.
pub fn copy_pairs(v: &Vec<(String, String)>) -> (r: Vec<(String, String)>)
    ensures
        r.deep_view() == v.deep_view(),
{
    let mut r: Vec<(String, String)> = Vec::new();
    let mut i: usize = 0;
    while i < v.len()
        invariant
            i <= v.len(),
            r@.len() == i,
            forall|j: int| 0 <= j < i ==> r@[j].deep_view() == #[trigger] v@[j].deep_view(),
        decreases v.len() - i,
    {
        r.push((v[i].0.clone(), v[i].1.clone()));
        i += 1;
    }
    assert(r.deep_view() =~= v.deep_view());
    r
}

/// A copy of the options.
pub fn copy_suffix(s: &UrlSuffix) -> (r: UrlSuffix)
    ensures
        r.deep_view() == s.deep_view(),
{
    UrlSuffix {
        headers: match &s.headers {
            Some(pairs) => Some(copy_pairs(pairs)),
            None => None,
        },
        body: copy_text(&s.body),
        method: copy_text(&s.method),
        charset: copy_text(&s.charset),
        retry: s.retry,
        body_js: copy_text(&s.body_js),
        js: copy_text(&s.js),
    }
}

/// Asks that something is done.
pub open spec fn ask_ready(answers: Seq<AnswerView>, question: QuestionView) -> Outcome<()> {
    if answers.len() > 0 && fits(question, answers[0]) {
        match answers[0] {
            AnswerView::Ready => Outcome::Done((), answers.drop_first()),
            AnswerView::Failed => Outcome::Fail(ReviewError::CallFailed),
            _ => Outcome::Ask(question, answers),
        }
    } else {
        Outcome::Ask(question, answers)
    }
}

/// Asks that something is done.
pub fn take_ready(given: &Vec<Answer>, pos: usize, question: Question) -> (r: Step<()>)
    requires
        pos <= given.len(),
    ensures
        r.agrees(
            given.deep_view(),
            ask_ready(given.deep_view().skip(pos as int), question.deep_view()),
        ),
{
    if pos < given.len() {
        let ghost left = given.deep_view().skip(pos as int);
        assert(left[0] == given@[pos as int].deep_view());
        assert(left.drop_first() =~= given.deep_view().skip(pos + 1));
        if answers(&question, &given[pos]) {
            match &given[pos] {
                Answer::Ready => return Step::Done((), pos + 1),
                Answer::Failed => return Step::Fail(ReviewError::CallFailed),
                _ => {},
            }
        }
    }
    Step::Ask(question)
}

/// Asks for a text.
pub open spec fn ask_text(answers: Seq<AnswerView>, question: QuestionView) -> Outcome<Seq<char>> {
    if answers.len() > 0 && fits(question, answers[0]) {
        match answers[0] {
            AnswerView::Text(text) => Outcome::Done(text, answers.drop_first()),
            AnswerView::Failed => Outcome::Fail(ReviewError::CallFailed),
            _ => Outcome::Ask(question, answers),
        }
    } else {
        Outcome::Ask(question, answers)
    }
}

/// Asks for a text.
pub fn take_text(given: &Vec<Answer>, pos: usize, question: Question) -> (r: Step<String>)
    requires
        pos <= given.len(),
    ensures
        r.agrees(
            given.deep_view(),
            ask_text(given.deep_view().skip(pos as int), question.deep_view()),
        ),
{
    if pos < given.len() {
        let ghost left = given.deep_view().skip(pos as int);
        assert(left[0] == given@[pos as int].deep_view());
        assert(left.drop_first() =~= given.deep_view().skip(pos + 1));
        if answers(&question, &given[pos]) {
            match &given[pos] {
                Answer::Text(text) => return Step::Done(text.clone(), pos + 1),
                Answer::Failed => return Step::Fail(ReviewError::CallFailed),
                _ => {},
            }
        }
    }
    Step::Ask(question)
}

/// Asks for texts.
pub open spec fn ask_texts(answers: Seq<AnswerView>, question: QuestionView) -> Outcome<
    Seq<Seq<char>>,
> {
    if answers.len() > 0 && fits(question, answers[0]) {
        match answers[0] {
            AnswerView::Texts(texts) => Outcome::Done(texts, answers.drop_first()),
            AnswerView::Failed => Outcome::Fail(ReviewError::CallFailed),
            _ => Outcome::Ask(question, answers),
        }
    } else {
        Outcome::Ask(question, answers)
    }
}

/// Asks for texts.
pub fn take_texts(given: &Vec<Answer>, pos: usize, question: Question) -> (r: Step<Vec<String>>)
    requires
        pos <= given.len(),
    ensures
        r.agrees(
            given.deep_view(),
            ask_texts(given.deep_view().skip(pos as int), question.deep_view()),
        ),
{
    if pos < given.len() {
        let ghost left = given.deep_view().skip(pos as int);
        assert(left[0] == given@[pos as int].deep_view());
        assert(left.drop_first() =~= given.deep_view().skip(pos + 1));
        if answers(&question, &given[pos]) {
            match &given[pos] {
                Answer::Texts(texts) => return Step::Done(copy_texts(texts), pos + 1),
                Answer::Failed => return Step::Fail(ReviewError::CallFailed),
                _ => {},
            }
        }
    }
    Step::Ask(question)
}

/// Asks whether a text is a number.
pub open spec fn ask_number(answers: Seq<AnswerView>, question: QuestionView) -> Outcome<
    Option<i64>,
> {
    if answers.len() > 0 && fits(question, answers[0]) {
        match answers[0] {
            AnswerView::Number(n) => Outcome::Done(n, answers.drop_first()),
            AnswerView::Failed => Outcome::Fail(ReviewError::CallFailed),
            _ => Outcome::Ask(question, answers),
        }
    } else {
        Outcome::Ask(question, answers)
    }
}

/// Asks whether a text is a number.
pub fn take_number(given: &Vec<Answer>, pos: usize, question: Question) -> (r: Step<Option<i64>>)
    requires
        pos <= given.len(),
    ensures
        r.agrees(
            given.deep_view(),
            ask_number(given.deep_view().skip(pos as int), question.deep_view()),
        ),
{
    if pos < given.len() {
        let ghost left = given.deep_view().skip(pos as int);
        assert(left[0] == given@[pos as int].deep_view());
        assert(left.drop_first() =~= given.deep_view().skip(pos + 1));
        if answers(&question, &given[pos]) {
            match &given[pos] {
                Answer::Number(n) => return Step::Done(*n, pos + 1),
                Answer::Failed => return Step::Fail(ReviewError::CallFailed),
                _ => {},
            }
        }
    }
    Step::Ask(question)
}

/// Asks for named values.
pub open spec fn ask_pairs(answers: Seq<AnswerView>, question: QuestionView) -> Outcome<
    Seq<(Seq<char>, Seq<char>)>,
> {
    if answers.len() > 0 && fits(question, answers[0]) {
        match answers[0] {
            AnswerView::Pairs(pairs) => Outcome::Done(pairs, answers.drop_first()),
            AnswerView::Failed => Outcome::Fail(ReviewError::CallFailed),
            _ => Outcome::Ask(question, answers),
        }
    } else {
        Outcome::Ask(question, answers)
    }
}

/// Asks for named values.
pub fn take_pairs(given: &Vec<Answer>, pos: usize, question: Question) -> (r: Step<
    Vec<(String, String)>,
>)
    requires
        pos <= given.len(),
    ensures
        r.agrees(
            given.deep_view(),
            ask_pairs(given.deep_view().skip(pos as int), question.deep_view()),
        ),
{
    if pos < given.len() {
        let ghost left = given.deep_view().skip(pos as int);
        assert(left[0] == given@[pos as int].deep_view());
        assert(left.drop_first() =~= given.deep_view().skip(pos + 1));
        if answers(&question, &given[pos]) {
            match &given[pos] {
                Answer::Pairs(pairs) => return Step::Done(copy_pairs(pairs), pos + 1),
                Answer::Failed => return Step::Fail(ReviewError::CallFailed),
                _ => {},
            }
        }
    }
    Step::Ask(question)
}

/// Asks for an address and its options.
pub open spec fn ask_split(answers: Seq<AnswerView>, question: QuestionView) -> Outcome<
    (Seq<char>, UrlSuffixView),
> {
    if answers.len() > 0 && fits(question, answers[0]) {
        match answers[0] {
            AnswerView::Split(url, suffix) => Outcome::Done((url, suffix), answers.drop_first()),
            AnswerView::Failed => Outcome::Fail(ReviewError::CallFailed),
            _ => Outcome::Ask(question, answers),
        }
    } else {
        Outcome::Ask(question, answers)
    }
}

/// Asks for an address and its options.
pub fn take_split(given: &Vec<Answer>, pos: usize, question: Question) -> (r: Step<
    (String, UrlSuffix),
>)
    requires
        pos <= given.len(),
    ensures
        r.agrees(
            given.deep_view(),
            ask_split(given.deep_view().skip(pos as int), question.deep_view()),
        ),
{
    if pos < given.len() {
        let ghost left = given.deep_view().skip(pos as int);
        assert(left[0] == given@[pos as int].deep_view());
        assert(left.drop_first() =~= given.deep_view().skip(pos + 1));
        if answers(&question, &given[pos]) {
            match &given[pos] {
                Answer::Split(url, suffix) => {
                    return Step::Done((url.clone(), copy_suffix(suffix)), pos + 1);
                },
                Answer::Failed => return Step::Fail(ReviewError::CallFailed),
                _ => {},
            }
        }
    }
    Step::Ask(question)
}

/// Asks for a response.
pub open spec fn ask_response(answers: Seq<AnswerView>, question: QuestionView) -> Outcome<
    FetchResponseView,
> {
    if answers.len() > 0 && fits(question, answers[0]) {
        match answers[0] {
            AnswerView::Response(response) => Outcome::Done(response, answers.drop_first()),
            AnswerView::Failed => Outcome::Fail(ReviewError::CallFailed),
            _ => Outcome::Ask(question, answers),
        }
    } else {
        Outcome::Ask(question, answers)
    }
}

/// Asks for a response.
pub fn take_response(given: &Vec<Answer>, pos: usize, question: Question) -> (r: Step<
    FetchResponse,
>)
    requires
        pos <= given.len(),
    ensures
        r.agrees(
            given.deep_view(),
            ask_response(given.deep_view().skip(pos as int), question.deep_view()),
        ),
{
    if pos < given.len() {
        let ghost left = given.deep_view().skip(pos as int);
        assert(left[0] == given@[pos as int].deep_view());
        assert(left.drop_first() =~= given.deep_view().skip(pos + 1));
        if answers(&question, &given[pos]) {
            match &given[pos] {
                Answer::Response(response) => {
                    let (url, body) = (response.url.clone(), response.body.clone());
                    return Step::Done(FetchResponse { url, body }, pos + 1);
                },
                Answer::Failed => return Step::Fail(ReviewError::CallFailed),
                _ => {},
            }
        }
    }
    Step::Ask(question)
}

} // verus!
