//! How many reviews the paragraphs of a chapter have.

use crate::content::{number_in, parse_i64};
use crate::dialog::{
    answers, ask_ready, take_ready, Answer, AnswerView, Outcome, Progress, Question, QuestionView,
    Step, ITEM_LEVEL, LIST_MAX,
};
use crate::fetch::fetched;
use crate::item::{extract_field, field_of, float_of, read_float};
use crate::model::{
    empty_summary, filled, filled_in, Book, BookChapter, BookSource, Place, ReviewError, ReviewRule,
    SummaryResult, SummaryView,
};
use crate::page_run::{open_page, opened, Page, PageView};
use crate::text::{decimal, decimal_text, i64_of, read_i64, trim, trimmed};
use vstd::prelude::*;
use vstd::string::*;

verus! {

/// The paragraph index where all of a chapter is asked about.
pub const WHOLE_CHAPTER: i64 = -1;

/// What is asked for, and how what comes back is read.
#[derive(Debug, Clone, Copy)]
pub struct SummarySetup<'a> {
    pub source: &'a BookSource,
    pub place: Place<'a>,
    pub url_rule: &'a str,
    pub list_rule: &'a str,
    pub index_rule: &'a str,
    pub count_rule: &'a str,
    pub data_rule: Option<&'a str>,
}

/// What one entry of the list says: a paragraph, how many reviews it has, and the data that goes
/// with it.
#[derive(Debug)]
pub struct Entry {
    pub paragraph: i64,
    pub count: i64,
    pub key: String,
}

/// An entry as a mathematical value.
#[verifier::ext_equal]
pub struct EntryView {
    pub paragraph: i64,
    pub count: i64,
    pub key: Seq<char>,
}

impl DeepView for Entry {
    type V = EntryView;

    open spec fn deep_view(&self) -> EntryView {
        EntryView { paragraph: self.paragraph, count: self.count, key: self.key@ }
    }
}

/// The number that a text is, as an integer or else as a floating-point number.
pub open spec fn number_of(text: Seq<char>, answers: Seq<AnswerView>) -> Outcome<Option<i64>> {
    let undecided = if i64_of(trimmed(text)) is Some {
        None
    } else {
        Some(trimmed(text))
    };
    float_of(undecided, answers).then_with(
        |float: Option<i64>, rest: Seq<AnswerView>| Outcome::Done(number_in(text, float), rest),
    )
}

/// The number that a text is, as an integer or else as a floating-point number.
fn read_number(text: &str, given: &Vec<Answer>, pos: usize) -> (r: Step<Option<i64>>)
    requires
        pos <= given.len(),
    ensures
        r.agrees(given.deep_view(), number_of(text@, given.deep_view().skip(pos as int))),
{
    let undecided = match read_i64(trim(text)) {
        Some(_) => None,
        None => Some(trim(text).to_owned()),
    };
    match read_float(undecided, given, pos) {
        Step::Ask(question) => Step::Ask(question),
        Step::Fail(error) => Step::Fail(error),
        Step::Done(float, pos) => Step::Done(parse_i64(text, float), pos),
    }
}

/// The data that goes with a paragraph where no rule finds any: the text of its index, or the
/// index itself.
pub open spec fn default_key(index_text: Seq<char>, paragraph: i64) -> Seq<char> {
    if index_text.len() == 0 {
        decimal(paragraph as int)
    } else {
        index_text
    }
}

/// The data that goes with a paragraph: what the rule finds, where it finds anything.
pub open spec fn key_of(
    setup: SummarySetup,
    item: Seq<char>,
    index_text: Seq<char>,
    paragraph: i64,
    answers: Seq<AnswerView>,
) -> Outcome<Seq<char>> {
    field_of(item, setup.data_rule.deep_view(), ITEM_LEVEL, answers).then_with(
        |data: Seq<char>, rest: Seq<AnswerView>|
            Outcome::Done(
                if data.len() == 0 {
                    default_key(index_text, paragraph)
                } else {
                    data
                },
                rest,
            ),
    )
}

/// What an entry says of its paragraph: nothing unless it has reviews.
#[verifier::opaque]
pub open spec fn counted(
    setup: SummarySetup,
    item: Seq<char>,
    index_text: Seq<char>,
    paragraph: i64,
    answers: Seq<AnswerView>,
) -> Outcome<Option<EntryView>> {
    field_of(item, Some(setup.count_rule@), ITEM_LEVEL, answers).then_with(
        |text: Seq<char>, rest: Seq<AnswerView>|
            number_of(text, rest).then_with(
                |number: Option<i64>, rest: Seq<AnswerView>|
                    {
                        let count = match number {
                            Some(n) => n,
                            None => 0,
                        };
                        if count <= 0 {
                            Outcome::Done(None, rest)
                        } else {
                            key_of(setup, item, index_text, paragraph, rest).then_with(
                                |key: Seq<char>, rest: Seq<AnswerView>|
                                    Outcome::Done(Some(EntryView { paragraph, count, key }), rest),
                            )
                        }
                    },
            ),
    )
}

/// What the entry at position `index` of the list says, if anything. The paragraph is the number
/// that the index rule finds, else the position, counted from one; there is no paragraph zero.
#[verifier::opaque]
pub open spec fn read_entry(
    setup: SummarySetup,
    index: int,
    item: Seq<char>,
    answers: Seq<AnswerView>,
) -> Outcome<Option<EntryView>> {
    ask_ready(answers, QuestionView::ForkVars { level: ITEM_LEVEL }).then_with(
        |done: (), rest: Seq<AnswerView>|
            field_of(item, Some(setup.index_rule@), ITEM_LEVEL, rest).then_with(
                |index_text: Seq<char>, rest: Seq<AnswerView>|
                    number_of(index_text, rest).then_with(
                        |number: Option<i64>, rest: Seq<AnswerView>|
                            {
                                let paragraph = match number {
                                    Some(n) => n,
                                    None => (index + 1) as i64,
                                };
                                if paragraph == 0 {
                                    Outcome::Done(None, rest)
                                } else {
                                    counted(setup, item, index_text, paragraph, rest)
                                }
                            },
                    ),
            ),
    )
}

/// Reads what the entry at position `index` of the list says, if anything.
fn parse_entry(
    setup: &SummarySetup,
    index: usize,
    item: &str,
    given: &Vec<Answer>,
    pos: usize,
) -> (r: Step<Option<Entry>>)
    requires
        pos <= given.len(),
        index < LIST_MAX,
    ensures
        r.agrees(
            given.deep_view(),
            read_entry(*setup, index as int, item@, given.deep_view().skip(pos as int)),
        ),
{
    proof {
        reveal(read_entry);
        reveal(counted);
    }
    let level = ITEM_LEVEL;
    let pos = match take_ready(given, pos, Question::ForkVars { level }) {
        Step::Ask(question) => return Step::Ask(question),
        Step::Fail(error) => return Step::Fail(error),
        Step::Done(_, pos) => pos,
    };
    let (index_text, pos) = match extract_field(item, Some(setup.index_rule), level, given, pos) {
        Step::Ask(question) => return Step::Ask(question),
        Step::Fail(error) => return Step::Fail(error),
        Step::Done(text, pos) => (text, pos),
    };
    let (paragraph, pos) = match read_number(index_text.as_str(), given, pos) {
        Step::Ask(question) => return Step::Ask(question),
        Step::Fail(error) => return Step::Fail(error),
        Step::Done(Some(n), pos) => (n, pos),
        Step::Done(None, pos) => (index as i64 + 1, pos),
    };
    if paragraph == 0 {
        return Step::Done(None, pos);
    }
    let (count_text, pos) = match extract_field(item, Some(setup.count_rule), level, given, pos) {
        Step::Ask(question) => return Step::Ask(question),
        Step::Fail(error) => return Step::Fail(error),
        Step::Done(text, pos) => (text, pos),
    };
    let (count, pos) = match read_number(count_text.as_str(), given, pos) {
        Step::Ask(question) => return Step::Ask(question),
        Step::Fail(error) => return Step::Fail(error),
        Step::Done(Some(n), pos) => (n, pos),
        Step::Done(None, pos) => (0, pos),
    };
    if count <= 0 {
        return Step::Done(None, pos);
    }
    match extract_field(item, setup.data_rule, level, given, pos) {
        Step::Ask(question) => Step::Ask(question),
        Step::Fail(error) => Step::Fail(error),
        Step::Done(data, pos) => {
            let key = if !data.as_str().is_empty() {
                data
            } else if index_text.as_str().is_empty() {
                decimal_text(paragraph)
            } else {
                index_text
            };
            Step::Done(Some(Entry { paragraph, count, key }), pos)
        },
    }
}

/// A summary with one more entry, in place of an earlier one for the same paragraph.
pub open spec fn with_entry(summary: SummaryView, entry: Option<EntryView>) -> SummaryView {
    match entry {
        Some(entry) => SummaryView {
            counts: summary.counts.insert(entry.paragraph, entry.count),
            keys: summary.keys.insert(entry.paragraph, entry.key),
        },
        None => summary,
    }
}

/// Adds an entry to a summary, in place of an earlier one for the same paragraph.
pub fn add_entry(summary: SummaryResult, entry: Option<Entry>) -> (r: SummaryResult)
    ensures
        r.deep_view() == with_entry(summary.deep_view(), entry.deep_view()),
{
    match entry {
        Some(entry) => {
            let SummaryResult { mut counts, mut keys } = summary;
            let ghost before = keys@.map_values(|s: String| s@);
            counts.insert(entry.paragraph, entry.count);
            keys.insert(entry.paragraph, entry.key);
            let r = SummaryResult { counts, keys };
            assert(r.deep_view().keys =~= before.insert(entry.paragraph, entry.key@));
            r
        },
        None => summary,
    }
}

/// What an entry came to.
pub open spec fn entry_result(outcome: Outcome<Option<EntryView>>) -> Option<EntryView> {
    match outcome {
        Outcome::Done(entry, _) => entry,
        _ => None,
    }
}

/// The summary of the first entries, as many as there are rows of answers, each by its own row.
pub open spec fn summary_by(
    setup: SummarySetup,
    texts: Seq<Seq<char>>,
    rows: Seq<Seq<AnswerView>>,
) -> SummaryView
    decreases rows.len(),
{
    if rows.len() == 0 {
        empty_summary()
    } else {
        with_entry(
            summary_by(setup, texts, rows.drop_last()),
            entry_result(
                read_entry(setup, rows.len() - 1, texts[rows.len() - 1], rows.last()),
            ),
        )
    }
}

/// How far a summary has come with the answers so far: those for the page itself, a row for each
/// entry that is read, and those for the entry that is being read.
#[verifier::ext_equal]
pub struct SummaryState<'a> {
    pub setup: Option<SummarySetup<'a>>,
    pub head: Seq<AnswerView>,
    pub rows: Seq<Seq<AnswerView>>,
    pub current: Seq<AnswerView>,
}

impl<'a> SummaryState<'a> {
    /// Nothing is answered yet.
    pub open spec fn fresh(setup: Option<SummarySetup<'a>>) -> SummaryState<'a> {
        SummaryState { setup, head: Seq::empty(), rows: Seq::empty(), current: Seq::empty() }
    }

    /// Is this how a run for the summary of a chapter starts? Nothing is answered yet, and without
    /// rules for a summary there is nothing to be asked.
    pub open spec fn starts(
        self,
        source: &'a BookSource,
        book: &'a Book,
        chapter: &'a BookChapter,
    ) -> bool {
        &&& self == SummaryState::fresh(self.setup)
        &&& self.setup is Some == summarises(source.rule_review)
        &&& self.setup matches Some(setup) ==> {
            let rule = source.rule_review->0;
            &&& setup.source == source
            &&& setup.place == (Place {
                book,
                chapter,
                para_index: WHOLE_CHAPTER,
                para_data: "",
                review_id: None,
                page: 1,
            })
            &&& Some(setup.url_rule@) == filled_in(rule.review_summary_url)
            &&& Some(setup.list_rule@) == filled_in(rule.summary_list_rule)
            &&& Some(setup.index_rule@) == filled_in(rule.summary_paragraph_index_rule)
            &&& Some(setup.count_rule@) == filled_in(rule.summary_count_rule)
            &&& setup.data_rule.deep_view() == filled_in(rule.summary_paragraph_data_rule)
        }
    }

    /// The page, as far as it has come.
    pub open spec fn page(self) -> Outcome<PageView> {
        let setup = self.setup->0;
        opened(*setup.source, setup.place, setup.url_rule@, setup.list_rule@, self.head)
    }

    /// The entry that is being read, as far as it has come.
    pub open spec fn entry(self, page: PageView) -> Outcome<Option<EntryView>> {
        read_entry(
            self.setup->0,
            self.rows.len() as int,
            page.texts[self.rows.len() as int],
            self.current,
        )
    }

    /// What is needed next, or what ends the run. Without rules for a summary there is nothing to
    /// be asked, and the summary is empty.
    pub open spec fn progress(self) -> Progress<SummaryView> {
        if self.setup is None {
            Progress::Done(empty_summary())
        } else {
            match self.page() {
                Outcome::Ask(question, _) => Progress::Ask(question),
                Outcome::Fail(error) => Progress::Fail(error),
                Outcome::Done(page, _) => {
                    let summary = summary_by(self.setup->0, page.texts, self.rows);
                    if self.rows.len() < page.texts.len() {
                        match self.entry(page) {
                            Outcome::Ask(question, _) => Progress::Ask(question),
                            Outcome::Fail(error) => Progress::Fail(error),
                            Outcome::Done(..) => Progress::Done(summary),
                        }
                    } else {
                        Progress::Done(summary)
                    }
                },
            }
        }
    }

    /// The state once `answer` is given: added to the answers for the page, else to those for the
    /// entry that is being read, which is then done or not. An answer of another kind than was
    /// asked for changes nothing.
    pub open spec fn after(self, answer: AnswerView) -> SummaryState<'a> {
        if !self.progress().takes(answer) {
            self
        } else {
            match self.page() {
                Outcome::Done(page, _) => {
                    let longer = SummaryState { current: self.current.push(answer), ..self };
                    if longer.entry(page) is Done {
                        SummaryState {
                            rows: self.rows.push(longer.current),
                            current: Seq::empty(),
                            ..self
                        }
                    } else {
                        longer
                    }
                },
                _ => SummaryState { head: self.head.push(answer), ..self },
            }
        }
    }
}

/// A page that is taken apart has no more parts than a list can have.
proof fn lemma_page_texts(
    source: BookSource,
    place: Place,
    url_rule: Seq<char>,
    list_rule: Seq<char>,
    answers: Seq<AnswerView>,
)
    ensures
        opened(source, place, url_rule, list_rule, answers) matches Outcome::Done(page, _)
            ==> page.texts.len() <= LIST_MAX,
{
    reveal(opened);
}

/// Reading an entry begins with a question.
pub proof fn lemma_entry_asks(setup: SummarySetup, index: int, item: Seq<char>)
    ensures
        read_entry(setup, index, item, Seq::empty()) is Ask,
{
    reveal(read_entry);
}

/// The summary of a chapter, being asked for.
pub struct SummaryRun<'a> {
    setup: Option<SummarySetup<'a>>,
    /// The page, once it is there.
    page: Option<Page>,
    /// The summary of the entries that are read.
    summary: SummaryResult,
    /// How many of the page's texts are read.
    read: usize,
    /// The answers for the page until it is there, then those for the entry that is being read.
    given: Vec<Answer>,
    head: Ghost<Seq<AnswerView>>,
    rows: Ghost<Seq<Seq<AnswerView>>>,
}

impl<'a> SummaryRun<'a> {
    /// How far the run has come.
    pub closed spec fn state(self) -> SummaryState<'a> {
        match self.page {
            Some(_) => SummaryState {
                setup: self.setup,
                head: self.head@,
                rows: self.rows@,
                current: self.given.deep_view(),
            },
            None => SummaryState {
                setup: self.setup,
                head: self.given.deep_view(),
                rows: Seq::empty(),
                current: Seq::empty(),
            },
        }
    }

    #[verifier::type_invariant]
    closed spec fn well_formed(self) -> bool {
        let state = self.state();
        match self.page {
            Some(page) => {
                &&& self.setup is Some
                &&& state.page() matches Outcome::Done(view, _) && view == page.deep_view()
                &&& self.read == self.rows@.len()
                &&& self.read <= page.texts@.len() <= LIST_MAX
                &&& self.summary.deep_view() == summary_by(
                    self.setup->0,
                    page.texts.deep_view(),
                    self.rows@,
                )
                &&& self.read < page.texts@.len() ==> !(state.entry(page.deep_view()) is Done)
            },
            None => {
                &&& self.setup is Some ==> !(state.page() is Done)
                &&& self.summary.deep_view() == empty_summary()
                &&& self.read == 0
            },
        }
    }

    /// The question that the run waits on, if it is not over.
    pub fn question(&self) -> (r: Option<Question>)
        ensures
            r.deep_view() == self.state().progress().question(),
    {
        proof {
            use_type_invariant(self);
        }
        assert(self.given.deep_view().skip(0) =~= self.given.deep_view());
        let setup = match &self.setup {
            Some(setup) => setup,
            None => return None,
        };
        match &self.page {
            None => match open_page(
                setup.source,
                &setup.place,
                setup.url_rule,
                setup.list_rule,
                &self.given,
                0,
            ) {
                Step::Ask(question) => Some(question),
                _ => None,
            },
            Some(page) => {
                if self.read >= page.texts.len() {
                    return None;
                }
                match parse_entry(
                    setup,
                    self.read,
                    page.texts[self.read].as_str(),
                    &self.given,
                    0,
                ) {
                    Step::Ask(question) => Some(question),
                    _ => None,
                }
            },
        }
    }

    /// Goes on with an answer. An answer of another kind than was asked for changes nothing.
    pub fn answer(self, answer: Answer) -> (r: SummaryRun<'a>)
        ensures
            r.state() == self.state().after(answer.deep_view()),
    {
        proof {
            use_type_invariant(&self);
        }
        match self.question() {
            Some(question) => if !answers(&question, &answer) {
                return self;
            },
            None => return self,
        }
        let setup = match self.setup {
            Some(setup) => setup,
            None => return self,
        };
        let ghost told = answer.deep_view();
        let mut given = self.given;
        given.push(answer);
        assert(given.deep_view() =~= self.given.deep_view().push(told));
        assert(given.deep_view().skip(0) =~= given.deep_view());
        match self.page {
            None => {
                let step = open_page(
                    setup.source,
                    &setup.place,
                    setup.url_rule,
                    setup.list_rule,
                    &given,
                    0,
                );
                match step {
                    Step::Done(page, _) => {
                        let ghost head = given.deep_view();
                        let fresh: Vec<Answer> = Vec::new();
                        proof {
                            assert(fresh.deep_view() =~= Seq::empty());
                            lemma_page_texts(
                                *setup.source,
                                setup.place,
                                setup.url_rule@,
                                setup.list_rule@,
                                head,
                            );
                            if page.texts@.len() > 0 {
                                lemma_entry_asks(setup, 0, page.texts.deep_view()[0]);
                            }
                        }
                        SummaryRun {
                            setup: self.setup,
                            page: Some(page),
                            summary: self.summary,
                            read: 0,
                            given: fresh,
                            head: Ghost(head),
                            rows: Ghost(Seq::empty()),
                        }
                    },
                    _ => SummaryRun {
                        setup: self.setup,
                        page: None,
                        summary: self.summary,
                        read: 0,
                        given,
                        head: self.head,
                        rows: self.rows,
                    },
                }
            },
            Some(page) => {
                let step = parse_entry(
                    &setup,
                    self.read,
                    page.texts[self.read].as_str(),
                    &given,
                    0,
                );
                assert(self.read < page.texts.len());
                match step {
                    Step::Done(entry, _) => {
                        let ghost rows = self.rows@.push(given.deep_view());
                        let fresh: Vec<Answer> = Vec::new();
                        proof {
                            assert(fresh.deep_view() =~= Seq::empty());
                            assert(rows.drop_last() =~= self.rows@);
                            if rows.len() < page.texts@.len() {
                                lemma_entry_asks(
                                    setup,
                                    rows.len() as int,
                                    page.texts.deep_view()[rows.len() as int],
                                );
                            }
                        }
                        SummaryRun {
                            setup: self.setup,
                            page: Some(page),
                            summary: add_entry(self.summary, entry),
                            read: self.read + 1,
                            given: fresh,
                            head: self.head,
                            rows: Ghost(rows),
                        }
                    },
                    _ => SummaryRun {
                        setup: self.setup,
                        page: Some(page),
                        summary: self.summary,
                        read: self.read,
                        given,
                        head: self.head,
                        rows: self.rows,
                    },
                }
            },
        }
    }

    /// Ends the run.
    pub fn finish(self) -> (r: Result<SummaryResult, ReviewError>)
        requires
            self.state().progress().question() is None,
        ensures
            match r {
                Ok(summary) => self.state().progress() == Progress::Done(summary.deep_view()),
                Err(error) => self.state().progress() == Progress::<SummaryView>::Fail(error),
            },
    {
        proof {
            use_type_invariant(&self);
        }
        assert(self.given.deep_view().skip(0) =~= self.given.deep_view());
        match &self.setup {
            Some(setup) => match &self.page {
                None => match open_page(
                    setup.source,
                    &setup.place,
                    setup.url_rule,
                    setup.list_rule,
                    &self.given,
                    0,
                ) {
                    Step::Fail(error) => return Err(error),
                    _ => {},
                },
                Some(page) => if self.read < page.texts.len() {
                    match parse_entry(
                        setup,
                        self.read,
                        page.texts[self.read].as_str(),
                        &self.given,
                        0,
                    ) {
                        Step::Fail(error) => return Err(error),
                        _ => {},
                    }
                },
            },
            None => {},
        }
        Ok(self.summary)
    }
}

/// Are there rules for a summary, and is the rule switched on?
pub open spec fn summarises(rule: Option<ReviewRule>) -> bool {
    &&& rule matches Some(rule)
    &&& rule.enabled
    &&& filled_in(rule.review_summary_url) is Some
    &&& filled_in(rule.summary_list_rule) is Some
    &&& filled_in(rule.summary_paragraph_index_rule) is Some
    &&& filled_in(rule.summary_count_rule) is Some
}

/// Starts to ask for the summary of a chapter. Without rules for a summary it is empty, which is
/// no failure.
pub fn get_summary<'a>(
    source: &'a BookSource,
    book: &'a Book,
    chapter: &'a BookChapter,
) -> (r: SummaryRun<'a>)
    ensures
        r.state().starts(source, book, chapter),
{
    let setup = match &source.rule_review {
        Some(rule) => if !rule.enabled {
            None
        } else {
            match (
                filled(&rule.review_summary_url),
                filled(&rule.summary_list_rule),
                filled(&rule.summary_paragraph_index_rule),
                filled(&rule.summary_count_rule),
            ) {
                (Some(url_rule), Some(list_rule), Some(index_rule), Some(count_rule)) => Some(
                    SummarySetup {
                        source,
                        place: Place {
                            book,
                            chapter,
                            para_index: WHOLE_CHAPTER,
                            para_data: "",
                            review_id: None,
                            page: 1,
                        },
                        url_rule,
                        list_rule,
                        index_rule,
                        count_rule,
                        data_rule: filled(&rule.summary_paragraph_data_rule),
                    },
                ),
                _ => None,
            }
        },
        None => None,
    };
    let given: Vec<Answer> = Vec::new();
    proof {
        reveal(opened);
        reveal(fetched);
        assert(given.deep_view() =~= Seq::empty());
    }
    SummaryRun {
        setup,
        page: None,
        summary: SummaryResult::default(),
        read: 0,
        given,
        head: Ghost(Seq::empty()),
        rows: Ghost(Seq::empty()),
    }
}

} // verus!
