//! A page of reviews or of replies, from the request for it to the items on it.

use crate::dialog::{
    ask_ready, ask_texts, take_ready, Answer, AnswerView, FetchResponseView, Outcome, Question,
    QuestionView, Step, PAGE_LEVEL,
};
use crate::fetch::{fetch_review_url, fetched};
use crate::item::{
    all_legible, extract_elements, found_in, parse_item, read_item, single_item, with_item, Reading,
    ReadingView, Role,
};
use crate::model::{BookSource, Place, ReviewError, ReviewItem, ReviewItemView, ReviewRule};
use crate::vars::{rule_vars, vars_at};
use vstd::prelude::*;
use vstd::string::*;

verus! {

/// What is asked for, and how what comes back is read.
#[derive(Debug)]
pub struct PageSetup<'a> {
    pub source: &'a BookSource,
    pub rule: &'a ReviewRule,
    pub place: Place<'a>,
    pub url_rule: String,
    pub list_rule: &'a str,
    pub content_rule: &'a str,
    pub role: Role,
}

/// A page that came back: its address, its text, and the parts of the text that are listed.
#[derive(Debug)]
pub struct Page {
    pub url: String,
    pub body: String,
    pub texts: Vec<String>,
}

/// A page as a mathematical value.
#[verifier::ext_equal]
pub struct PageView {
    pub url: Seq<char>,
    pub body: Seq<char>,
    pub texts: Seq<Seq<char>>,
}

impl DeepView for Page {
    type V = PageView;

    open spec fn deep_view(&self) -> PageView {
        PageView { url: self.url@, body: self.body@, texts: self.texts.deep_view() }
    }
}

/// A response, taken apart by `list_rule` on a fresh bridge with fresh variables.
pub open spec fn listed(
    place: Place,
    list_rule: Seq<char>,
    response: FetchResponseView,
    answers: Seq<AnswerView>,
) -> Outcome<PageView> {
    ask_ready(answers, QuestionView::OpenBridge).then_with(
        |done: (), rest: Seq<AnswerView>|
            ask_ready(rest, QuestionView::AssignVars(rule_vars(place, response.body))).then_with(
                |done: (), rest: Seq<AnswerView>|
                    ask_texts(
                        rest,
                        QuestionView::Elements {
                            level: PAGE_LEVEL,
                            rule: list_rule,
                            text: response.body,
                        },
                    ).then_with(
                        |texts: Seq<Seq<char>>, rest: Seq<AnswerView>|
                            Outcome::Done(
                                PageView { url: response.url, body: response.body, texts },
                                rest,
                            ),
                    ),
            ),
    )
}

/// The page that a rule's address gives: its request is sent once, and the response taken apart.
#[verifier::opaque]
pub open spec fn opened(
    source: BookSource,
    place: Place,
    url_rule: Seq<char>,
    list_rule: Seq<char>,
    answers: Seq<AnswerView>,
) -> Outcome<PageView> {
    fetched(source, place, url_rule, answers).then_with(
        |response: FetchResponseView, rest: Seq<AnswerView>|
            listed(place, list_rule, response, rest),
    )
}

/// Gets the page that a rule's address gives and takes it apart.
pub fn open_page(
    source: &BookSource,
    place: &Place,
    url_rule: &str,
    list_rule: &str,
    given: &Vec<Answer>,
    pos: usize,
) -> (r: Step<Page>)
    requires
        pos <= given.len(),
    ensures
        r.agrees(
            given.deep_view(),
            opened(*source, *place, url_rule@, list_rule@, given.deep_view().skip(pos as int)),
        ),
{
    proof {
        reveal(opened);
    }
    let (response, pos) = match fetch_review_url(source, place, url_rule, given, pos) {
        Step::Ask(question) => return Step::Ask(question),
        Step::Fail(error) => return Step::Fail(error),
        Step::Done(response, pos) => (response, pos),
    };
    let pos = match take_ready(given, pos, Question::OpenBridge) {
        Step::Ask(question) => return Step::Ask(question),
        Step::Fail(error) => return Step::Fail(error),
        Step::Done(_, pos) => pos,
    };
    let vars = vars_at(place, response.body.as_str());
    let pos = match take_ready(given, pos, Question::AssignVars(vars)) {
        Step::Ask(question) => return Step::Ask(question),
        Step::Fail(error) => return Step::Fail(error),
        Step::Done(_, pos) => pos,
    };
    match extract_elements(list_rule, response.body.as_str(), PAGE_LEVEL, given, pos) {
        Step::Ask(question) => Step::Ask(question),
        Step::Fail(error) => Step::Fail(error),
        Step::Done(texts, pos) => Step::Done(
            Page { url: response.url, body: response.body, texts },
            pos,
        ),
    }
}

/// What an item came to.
pub open spec fn item_result(outcome: Outcome<Option<ReviewItemView>>) -> Option<ReviewItemView> {
    match outcome {
        Outcome::Done(item, _) => item,
        _ => None,
    }
}

/// The items that the first texts are, as many as there are rows of answers, each by its own row.
pub open spec fn items_by(
    reading: ReadingView,
    texts: Seq<Seq<char>>,
    rows: Seq<Seq<AnswerView>>,
) -> Seq<ReviewItemView>
    decreases rows.len(),
{
    if rows.len() == 0 {
        Seq::empty()
    } else {
        with_item(
            items_by(reading, texts, rows.drop_last()),
            item_result(read_item(reading, texts[rows.len() - 1], rows.last())),
        )
    }
}

/// How far a page has come with the answers so far: those for the page itself, a row for each item
/// that is read, and those for the item that is being read.
#[verifier::ext_equal]
pub struct PageState<'a> {
    pub setup: PageSetup<'a>,
    pub head: Seq<AnswerView>,
    pub rows: Seq<Seq<AnswerView>>,
    pub current: Seq<AnswerView>,
}

/// What a page needs next, or the page and its items.
#[verifier::ext_equal]
pub enum PageProgress {
    Ask(QuestionView),
    Fail(ReviewError),
    Read(PageView, Seq<ReviewItemView>),
}

impl<'a> PageState<'a> {
    /// Nothing is answered yet.
    pub open spec fn fresh(setup: PageSetup<'a>) -> PageState<'a> {
        PageState { setup, head: Seq::empty(), rows: Seq::empty(), current: Seq::empty() }
    }

    /// The page, as far as it has come.
    pub open spec fn page(self) -> Outcome<PageView> {
        opened(
            *self.setup.source,
            self.setup.place,
            self.setup.url_rule@,
            self.setup.list_rule@,
            self.head,
        )
    }

    /// How the items of the page are read.
    pub open spec fn reading(self, page: PageView) -> ReadingView {
        ReadingView {
            rule: *self.setup.rule,
            base_url: page.url,
            role: self.setup.role,
            content_rule: self.setup.content_rule@,
        }
    }

    /// The items that are read.
    pub open spec fn items(self, page: PageView) -> Seq<ReviewItemView> {
        items_by(self.reading(page), page.texts, self.rows)
    }

    /// The item that is being read, as far as it has come.
    pub open spec fn item(self, page: PageView) -> Outcome<Option<ReviewItemView>> {
        read_item(self.reading(page), page.texts[self.rows.len() as int], self.current)
    }

    /// What is needed next, or the page and its items.
    pub open spec fn progress(self) -> PageProgress {
        match self.page() {
            Outcome::Ask(question, _) => PageProgress::Ask(question),
            Outcome::Fail(error) => PageProgress::Fail(error),
            Outcome::Done(page, _) => if self.rows.len() < page.texts.len() {
                match self.item(page) {
                    Outcome::Ask(question, _) => PageProgress::Ask(question),
                    Outcome::Fail(error) => PageProgress::Fail(error),
                    Outcome::Done(..) => PageProgress::Read(page, self.items(page)),
                }
            } else {
                PageProgress::Read(page, self.items(page))
            },
        }
    }

    /// The state once `answer` is added: to the answers for the page, else to those for the item
    /// that is being read, which is then done or not.
    pub open spec fn after(self, answer: AnswerView) -> PageState<'a> {
        match self.page() {
            Outcome::Done(page, _) => {
                let longer = PageState { current: self.current.push(answer), ..self };
                if longer.item(page) is Done {
                    PageState {
                        rows: self.rows.push(longer.current),
                        current: Seq::empty(),
                        ..self
                    }
                } else {
                    longer
                }
            },
            _ => PageState { head: self.head.push(answer), ..self },
        }
    }
}

/// What a page needs next, if anything.
#[derive(Debug)]
pub enum PageStep {
    Ask(Question),
    Fail(ReviewError),
    Read,
}

/// A page that is being read.
pub(crate) struct PageRun<'a> {
    pub(crate) setup: PageSetup<'a>,
    /// The page, once it is there.
    pub(crate) page: Option<Page>,
    /// The items that are read.
    pub(crate) items: Vec<ReviewItem>,
    /// How many of the page's texts are read.
    pub(crate) read: usize,
    /// The answers for the page until it is there, then those for the item that is being read.
    pub(crate) given: Vec<Answer>,
    pub(crate) head: Ghost<Seq<AnswerView>>,
    pub(crate) rows: Ghost<Seq<Seq<AnswerView>>>,
}

/// Reading an item begins with a question.
pub proof fn lemma_item_asks(reading: ReadingView, item: Seq<char>)
    ensures
        read_item(reading, item, Seq::empty()) == Outcome::<Option<ReviewItemView>>::Ask(
            QuestionView::ForkVars { level: reading.level() },
            Seq::empty(),
        ),
{
    reveal(read_item);
    reveal(single_item);
    reveal(found_in);
}

impl<'a> PageRun<'a> {
    /// How far the page has come.
    pub(crate) open spec fn state(self) -> PageState<'a> {
        match self.page {
            Some(_) => PageState {
                setup: self.setup,
                head: self.head@,
                rows: self.rows@,
                current: self.given.deep_view(),
            },
            None => PageState {
                setup: self.setup,
                head: self.given.deep_view(),
                rows: Seq::empty(),
                current: Seq::empty(),
            },
        }
    }

    /// What is kept of the page is what the answers give.
    pub(crate) open spec fn well_formed(self) -> bool {
        let state = self.state();
        &&& all_legible(self.items.deep_view())
        &&& match self.page {
            Some(page) => {
                &&& state.page() matches Outcome::Done(view, _) && view == page.deep_view()
                &&& self.read == self.rows@.len()
                &&& self.read <= page.texts@.len()
                &&& self.items.deep_view() == state.items(page.deep_view())
                &&& self.read < page.texts@.len() ==> !(state.item(page.deep_view()) is Done)
                &&& self.read == page.texts@.len() ==> self.given@.len() == 0
            },
            None => {
                &&& !(state.page() is Done)
                &&& self.items@.len() == 0
                &&& self.read == 0
            },
        }
    }

    /// Nothing is answered yet.
    pub(crate) fn new(setup: PageSetup<'a>) -> (r: PageRun<'a>)
        ensures
            r.well_formed(),
            r.state() == PageState::fresh(setup),
    {
        proof {
            reveal(opened);
            reveal(fetched);
        }
        let r = PageRun {
            setup,
            page: None,
            items: Vec::new(),
            read: 0,
            given: Vec::new(),
            head: Ghost(Seq::empty()),
            rows: Ghost(Seq::empty()),
        };
        assert(r.given.deep_view() =~= Seq::empty());
        r
    }

    /// How the items of the page are read.
    fn reading<'b>(&'b self, page: &'b Page) -> (r: Reading<'b>)
        ensures
            r.deep_view() == self.state().reading(page.deep_view()),
    {
        Reading {
            rule: self.setup.rule,
            base_url: page.url.as_str(),
            role: self.setup.role,
            content_rule: self.setup.content_rule,
        }
    }

    /// What is needed next, if anything.
    pub(crate) fn progress(&self) -> (r: PageStep)
        requires
            self.well_formed(),
        ensures
            match r {
                PageStep::Ask(question) => self.state().progress() == PageProgress::Ask(
                    question.deep_view(),
                ),
                PageStep::Fail(error) => self.state().progress() == PageProgress::Fail(error),
                PageStep::Read => {
                    &&& self.page is Some
                    &&& self.read == self.page->0.texts@.len()
                    &&& self.state().progress() == PageProgress::Read(
                        self.page->0.deep_view(),
                        self.items.deep_view(),
                    )
                },
            },
    {
        assert(self.given.deep_view().skip(0) =~= self.given.deep_view());
        match &self.page {
            None => match open_page(
                self.setup.source,
                &self.setup.place,
                self.setup.url_rule.as_str(),
                self.setup.list_rule,
                &self.given,
                0,
            ) {
                Step::Ask(question) => PageStep::Ask(question),
                Step::Fail(error) => PageStep::Fail(error),
                Step::Done(..) => PageStep::Read,
            },
            Some(page) => {
                if self.read >= page.texts.len() {
                    return PageStep::Read;
                }
                let reading = self.reading(page);
                match parse_item(&reading, page.texts[self.read].as_str(), &self.given, 0) {
                    Step::Ask(question) => PageStep::Ask(question),
                    Step::Fail(error) => PageStep::Fail(error),
                    Step::Done(..) => PageStep::Read,
                }
            },
        }
    }

    /// Goes on with one more answer.
    pub(crate) fn after(self, answer: Answer) -> (r: PageRun<'a>)
        requires
            self.well_formed(),
            self.state().progress() is Ask,
        ensures
            r.well_formed(),
            r.state() == self.state().after(answer.deep_view()),
    {
        let ghost before = self.state();
        let ghost told = answer.deep_view();
        let mut given = self.given;
        given.push(answer);
        assert(given.deep_view() =~= self.given.deep_view().push(told));
        assert(given.deep_view().skip(0) =~= given.deep_view());
        match self.page {
            None => {
                let step = open_page(
                    self.setup.source,
                    &self.setup.place,
                    self.setup.url_rule.as_str(),
                    self.setup.list_rule,
                    &given,
                    0,
                );
                match step {
                    Step::Done(page, _) => {
                        let ghost head = given.deep_view();
                        let r = PageRun {
                            setup: self.setup,
                            page: Some(page),
                            items: self.items,
                            read: 0,
                            given: Vec::new(),
                            head: Ghost(head),
                            rows: Ghost(Seq::empty()),
                        };
                        proof {
                            assert(r.given.deep_view() =~= Seq::empty());
                            assert(r.items.deep_view() =~= Seq::empty());
                            if page.texts@.len() > 0 {
                                lemma_item_asks(
                                    r.state().reading(page.deep_view()),
                                    page.texts.deep_view()[0],
                                );
                            }
                        }
                        r
                    },
                    _ => PageRun {
                        setup: self.setup,
                        page: None,
                        items: self.items,
                        read: 0,
                        given,
                        head: self.head,
                        rows: self.rows,
                    },
                }
            },
            Some(page) => {
                let reading = Reading {
                    rule: self.setup.rule,
                    base_url: page.url.as_str(),
                    role: self.setup.role,
                    content_rule: self.setup.content_rule,
                };
                let step = parse_item(&reading, page.texts[self.read].as_str(), &given, 0);
                assert(self.read < page.texts.len());
                match step {
                    Step::Done(item, _) => {
                        let mut items = self.items;
                        let ghost row = given.deep_view();
                        match item {
                            Some(item) => {
                                items.push(item);
                            },
                            None => {},
                        }
                        let r = PageRun {
                            setup: self.setup,
                            page: Some(page),
                            items,
                            read: self.read + 1,
                            given: Vec::new(),
                            head: self.head,
                            rows: Ghost(self.rows@.push(row)),
                        };
                        proof {
                            assert(r.given.deep_view() =~= Seq::empty());
                            assert(r.rows@.drop_last() =~= self.rows@);
                            assert(r.items.deep_view() =~= with_item(
                                self.items.deep_view(),
                                item.deep_view(),
                            ));
                            if r.read < page.texts@.len() {
                                lemma_item_asks(
                                    r.state().reading(page.deep_view()),
                                    page.texts.deep_view()[r.read as int],
                                );
                            }
                        }
                        r
                    },
                    _ => PageRun {
                        setup: self.setup,
                        page: Some(page),
                        items: self.items,
                        read: self.read,
                        given,
                        head: self.head,
                        rows: self.rows,
                    },
                }
            },
        }
    }
}

} // verus!
