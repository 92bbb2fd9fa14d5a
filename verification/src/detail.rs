//! The reviews of a paragraph.

use crate::content::{nonempty, some_text};
use crate::dialog::{
    answers, ask_ready, take_ready, Answer, AnswerView, Outcome, Progress, Question, QuestionView,
    Step, PAGE_LEVEL,
};
use crate::item::{all_legible, extract_field, field_of, resolve, resolved, Role};
use crate::model::{
    filled, filled_in, filled_in_or, Book, BookChapter, BookSource, DetailPage, DetailPageView,
    Place, ReviewError, ReviewItemView, ReviewRule,
};
use crate::next_urls::{
    detail_cache_key, get_next_url, page_key, put_next_url, remembered, remembers, NextUrls,
};
use crate::page_run::{
    Page, PageProgress, PageRun, PageSetup, PageState, PageStep, PageView,
};
use crate::vars::{rule_vars, vars_at};
use vstd::prelude::*;
use vstd::string::*;

verus! {

/// Why the reviews of a paragraph cannot be asked for, if they cannot: the first that holds.
pub open spec fn detail_refusal(rule: Option<ReviewRule>) -> Option<ReviewError> {
    match rule {
        None => Some(ReviewError::RuleMissing),
        Some(rule) => if !rule.enabled {
            Some(ReviewError::RuleDisabled)
        } else if filled_in(rule.detail_list_rule) is None {
            Some(ReviewError::DetailListRuleMissing)
        } else if filled_in_or(rule.detail_content_rule, rule.content_rule) is None {
            Some(ReviewError::DetailContentRuleMissing)
        } else if filled_in_or(rule.review_detail_url, rule.review_url) is None {
            Some(ReviewError::DetailUrlMissing)
        } else {
            None
        },
    }
}

/// The page, counted from one.
pub open spec fn at_least_one(page: u32) -> u32 {
    if page == 0 {
        1
    } else {
        page
    }
}

/// The key of the page of reviews at `place`.
pub open spec fn key_at(ns: Seq<char>, source: BookSource, place: Place) -> Seq<char> {
    page_key(
        ns,
        source.book_source_url@,
        place.book.book_url@,
        place.chapter.url@,
        place.para_index as int,
        place.para_data@,
        place.page as int,
    )
}

/// The same place, one page on.
pub open spec fn one_page_on<'a>(place: Place<'a>) -> Place<'a> {
    Place { page: (place.page + 1) as u32, ..place }
}

/// The address rule of the page at `place`: on a page behind the first, the address that the page
/// before gave, where it is remembered; else the first address.
pub open spec fn detail_url_rule(
    ns: Seq<char>,
    source: BookSource,
    rule: ReviewRule,
    place: Place,
    cache: Map<Seq<char>, Seq<char>>,
) -> Seq<char> {
    let first = filled_in_or(rule.review_detail_url, rule.review_url)->0;
    if place.page == 1 {
        first
    } else {
        match remembered(cache, key_at(ns, source, place)) {
            Some(url) => url,
            None => first,
        }
    }
}

/// The page of reviews, once its items are read: with the address of the next page where the rule
/// finds one. A page that lists reviews of which none can be read is a failure.
pub open spec fn closed_detail(
    rule: ReviewRule,
    place: Place,
    page: PageView,
    items: Seq<ReviewItemView>,
    answers: Seq<AnswerView>,
) -> Outcome<DetailPageView> {
    if page.texts.len() > 0 && items.len() == 0 {
        Outcome::Fail(ReviewError::DetailUnreadable)
    } else {
        next_url(rule, place, page, answers).then_with(
            |next: Option<Seq<char>>, rest: Seq<AnswerView>|
                {
                    let next_page_url = if next is Some && next->0.len() > 0 && items.len() > 0 {
                        next
                    } else {
                        None
                    };
                    Outcome::Done(
                        DetailPageView { items, next_page_url, has_more: next_page_url is Some },
                        rest,
                    )
                },
        )
    }
}

/// The address of the next page as the rule finds it in the page's text, made absolute.
#[verifier::opaque]
pub open spec fn next_url(
    rule: ReviewRule,
    place: Place,
    page: PageView,
    answers: Seq<AnswerView>,
) -> Outcome<Option<Seq<char>>> {
    match filled_in(rule.review_detail_next_page_url) {
        None => Outcome::Done(None, answers),
        Some(next_rule) => ask_ready(
            answers,
            QuestionView::AssignVars(rule_vars(one_page_on(place), page.body)),
        ).then_with(
            |done: (), rest: Seq<AnswerView>|
                field_of(page.body, Some(next_rule), PAGE_LEVEL, rest).then_with(
                    |next: Seq<char>, rest: Seq<AnswerView>|
                        resolved(some_text(next), page.url, rest),
                ),
        ),
    }
}

/// How far the reviews of a paragraph have come: their page, and the answers behind it.
#[verifier::ext_equal]
pub struct DetailState<'a> {
    pub ns: Seq<char>,
    pub page: PageState<'a>,
    pub tail: Seq<AnswerView>,
}

impl<'a> DetailState<'a> {
    /// Is this how a run for a page of reviews starts, with what is remembered in `cache`? Nothing
    /// is answered yet, and pages are counted from one.
    pub open spec fn starts(
        self,
        ns: Seq<char>,
        source: &'a BookSource,
        book: &'a Book,
        chapter: &'a BookChapter,
        para_index: i64,
        para_data: &'a str,
        page: u32,
        cache: Map<Seq<char>, Seq<char>>,
    ) -> bool {
        let place = Place {
            book,
            chapter,
            para_index,
            para_data,
            review_id: None,
            page: at_least_one(page),
        };
        let rule = source.rule_review->0;
        let setup = self.page.setup;
        &&& self == (DetailState { ns, page: PageState::fresh(setup), tail: Seq::empty() })
        &&& setup.source == source
        &&& *setup.rule == rule
        &&& setup.place == place
        &&& setup.url_rule@ == detail_url_rule(ns, *source, rule, place, cache)
        &&& Some(setup.list_rule@) == filled_in(rule.detail_list_rule)
        &&& Some(setup.content_rule@) == filled_in_or(rule.detail_content_rule, rule.content_rule)
        &&& setup.role is Review
    }

    /// The state once the answers are given, one after the other.
    pub open spec fn after_all(self, answers: Seq<AnswerView>) -> DetailState<'a>
        decreases answers.len(),
    {
        if answers.len() == 0 {
            self
        } else {
            self.after_all(answers.drop_last()).after(answers.last())
        }
    }

    /// The key of the page behind the one that is asked for.
    pub open spec fn next_key(self) -> Seq<char> {
        key_at(self.ns, *self.page.setup.source, one_page_on(self.page.setup.place))
    }

    /// What is remembered once the run is over: the address of the next page too, where there is
    /// one.
    pub open spec fn leaves(self, cache: NextUrls) -> Map<Seq<char>, Seq<char>> {
        match self.progress() {
            Progress::Done(detail) => match detail.next_page_url {
                Some(next) => cache.with(self.next_key(), next),
                None => cache@,
            },
            _ => cache@,
        }
    }

    /// Is it not yet so far that the page after this one is looked for, or can that be counted?
    pub open spec fn counts(self) -> bool {
        match self.page.progress() {
            PageProgress::Read(page, items) => {
                ||| page.texts.len() > 0 && items.len() == 0
                ||| next_page_counts(*self.page.setup.rule, self.page.setup.place.page)
            },
            _ => true,
        }
    }

    /// What is needed next, or what ends the run.
    pub open spec fn progress(self) -> Progress<DetailPageView> {
        match self.page.progress() {
            PageProgress::Ask(question) => Progress::Ask(question),
            PageProgress::Fail(error) => Progress::Fail(error),
            PageProgress::Read(page, items) => match closed_detail(
                *self.page.setup.rule,
                self.page.setup.place,
                page,
                items,
                self.tail,
            ) {
                Outcome::Ask(question, _) => Progress::Ask(question),
                Outcome::Fail(error) => Progress::Fail(error),
                Outcome::Done(detail, _) => Progress::Done(detail),
            },
        }
    }

    /// The state once `answer` is given. An answer of another kind than was asked for changes
    /// nothing.
    pub open spec fn after(self, answer: AnswerView) -> DetailState<'a> {
        if !self.progress().takes(answer) {
            self
        } else if self.page.progress() is Ask {
            DetailState { page: self.page.after(answer), ..self }
        } else {
            DetailState { tail: self.tail.push(answer), ..self }
        }
    }
}

/// Can the page after this one be counted, where the rule looks for it?
pub open spec fn next_page_counts(rule: ReviewRule, page: u32) -> bool {
    page < u32::MAX || filled_in(rule.review_detail_next_page_url) is None
}

/// The reviews of a paragraph, being asked for.
pub struct DetailRun<'a> {
    ns: &'a str,
    run: PageRun<'a>,
    tail: Vec<Answer>,
}

impl<'a> DetailRun<'a> {
    /// How far the run has come.
    pub closed spec fn state(self) -> DetailState<'a> {
        DetailState { ns: self.ns@, page: self.run.state(), tail: self.tail.deep_view() }
    }

    #[verifier::type_invariant]
    closed spec fn well_formed(self) -> bool {
        self.run.well_formed()
    }

    /// The address of the next page as the rule finds it.
    fn find_next(&self, page: &Page) -> (r: Step<Option<String>>)
        requires
            next_page_counts(*self.run.setup.rule, self.run.setup.place.page),
        ensures
            r.agrees(
                self.tail.deep_view(),
                next_url(
                    *self.run.setup.rule,
                    self.run.setup.place,
                    page.deep_view(),
                    self.tail.deep_view(),
                ),
            ),
    {
        proof {
            use_type_invariant(self);
            reveal(next_url);
        }
        assert(self.tail.deep_view().skip(0) =~= self.tail.deep_view());
        let setup = &self.run.setup;
        let next_rule = match filled(&setup.rule.review_detail_next_page_url) {
            Some(next_rule) => next_rule,
            None => return Step::Done(None, 0),
        };
        let next_place = Place {
            book: setup.place.book,
            chapter: setup.place.chapter,
            para_index: setup.place.para_index,
            para_data: setup.place.para_data,
            review_id: setup.place.review_id,
            page: setup.place.page + 1,
        };
        let vars = vars_at(&next_place, page.body.as_str());
        let pos = match take_ready(&self.tail, 0, Question::AssignVars(vars)) {
            Step::Ask(question) => return Step::Ask(question),
            Step::Fail(error) => return Step::Fail(error),
            Step::Done(_, pos) => pos,
        };
        match extract_field(page.body.as_str(), Some(next_rule), PAGE_LEVEL, &self.tail, pos) {
            Step::Ask(question) => Step::Ask(question),
            Step::Fail(error) => Step::Fail(error),
            Step::Done(next, pos) => resolve(nonempty(next), page.url.as_str(), &self.tail, pos),
        }
    }

    /// Is it not yet so far that the page after this one is looked for, or can that be counted?
    /// Behind the last page number there is nothing to be counted, and the run cannot go on.
    pub fn counts(&self) -> (r: bool)
        ensures
            r == self.state().counts(),
    {
        proof {
            use_type_invariant(self);
        }
        match self.run.progress() {
            PageStep::Read => {},
            _ => return true,
        }
        match &self.run.page {
            Some(page) => if page.texts.len() > 0 && self.run.items.len() == 0 {
                return true;
            },
            None => {},
        }
        let setup = &self.run.setup;
        setup.place.page < u32::MAX || filled(&setup.rule.review_detail_next_page_url).is_none()
    }

    /// The question that the run waits on, if it is not over.
    pub fn question(&self) -> (r: Option<Question>)
        requires
            self.state().counts(),
        ensures
            r.deep_view() == self.state().progress().question(),
    {
        proof {
            use_type_invariant(self);
        }
        match self.run.progress() {
            PageStep::Ask(question) => Some(question),
            PageStep::Fail(_) => None,
            PageStep::Read => match &self.run.page {
                Some(page) => if page.texts.len() > 0 && self.run.items.len() == 0 {
                    None
                } else {
                    match self.find_next(page) {
                        Step::Ask(question) => Some(question),
                        _ => None,
                    }
                },
                None => None,
            },
        }
    }

    /// Goes on with an answer. An answer of another kind than was asked for changes nothing.
    pub fn answer(self, answer: Answer) -> (r: DetailRun<'a>)
        requires
            self.state().counts(),
        ensures
            r.state() == self.state().after(answer.deep_view()),
    {
        proof {
            use_type_invariant(&self);
        }
        match self.question() {
            Some(question) => if !answers(&question, &answer) {
                return self;
            },
            None => return self,
        }
        match self.run.progress() {
            PageStep::Ask(_) => DetailRun {
                ns: self.ns,
                run: self.run.after(answer),
                tail: self.tail,
            },
            _ => {
                let ghost told = answer.deep_view();
                let mut tail = self.tail;
                tail.push(answer);
                assert(tail.deep_view() =~= self.tail.deep_view().push(told));
                DetailRun { ns: self.ns, run: self.run, tail }
            },
        }
    }

    /// Ends the run. The address of the next page, where there is one, is remembered.
    pub fn finish(self, cache: &mut NextUrls) -> (r: Result<DetailPage, ReviewError>)
        requires
            self.state().counts(),
            self.state().progress().question() is None,
        ensures
            r matches Ok(page) ==> all_legible(page.items.deep_view()),
            match r {
                Ok(page) => self.state().progress() == Progress::Done(page.deep_view()),
                Err(error) => self.state().progress() == Progress::<DetailPageView>::Fail(error),
            },
            final(cache)@ == self.state().leaves(*old(cache)),
            match r {
                Ok(page) => match page.next_page_url {
                    Some(next) => remembers(
                        old(cache)@,
                        final(cache)@,
                        self.state().next_key(),
                        next@,
                    ),
                    None => final(cache)@ == old(cache)@,
                },
                Err(_) => final(cache)@ == old(cache)@,
            },
    {
        proof {
            use_type_invariant(&self);
            reveal(next_url);
        }
        match self.run.progress() {
            PageStep::Fail(error) => return Err(error),
            _ => {},
        }
        let next = match &self.run.page {
            Some(page) => {
                if page.texts.len() > 0 && self.run.items.len() == 0 {
                    return Err(ReviewError::DetailUnreadable);
                }
                match self.find_next(page) {
                    Step::Fail(error) => return Err(error),
                    Step::Done(Some(url), _) => if url.as_str().is_empty()
                        || self.run.items.len() == 0 {
                        None
                    } else {
                        Some(url)
                    },
                    _ => None,
                }
            },
            None => None,
        };
        match &next {
            Some(url) => {
                let setup = &self.run.setup;
                let key = detail_cache_key(
                    self.ns,
                    setup.source,
                    setup.place.book,
                    setup.place.chapter,
                    setup.place.para_index,
                    setup.place.para_data,
                    setup.place.page + 1,
                );
                put_next_url(cache, key, url.clone());
            },
            None => {},
        }
        let has_more = next.is_some();
        Ok(DetailPage { items: self.run.items, next_page_url: next, has_more })
    }
}

/// Starts to ask for the reviews of a paragraph, one page of them. Pages are counted from one.
pub fn get_detail<'a>(
    ns: &'a str,
    source: &'a BookSource,
    book: &'a Book,
    chapter: &'a BookChapter,
    para_index: i64,
    para_data: &'a str,
    page: u32,
    cache: &NextUrls,
) -> (r: Result<DetailRun<'a>, ReviewError>)
    ensures
        match r {
            Ok(run) => {
                &&& detail_refusal(source.rule_review) is None
                &&& run.state().starts(
                    ns@,
                    source,
                    book,
                    chapter,
                    para_index,
                    para_data,
                    page,
                    cache@,
                )
            },
            Err(error) => detail_refusal(source.rule_review) == Some(error),
        },
{
    let rule = match &source.rule_review {
        Some(rule) => rule,
        None => return Err(ReviewError::RuleMissing),
    };
    if !rule.enabled {
        return Err(ReviewError::RuleDisabled);
    }
    let list_rule = match rule.detail_list_rule() {
        Some(list_rule) => list_rule,
        None => return Err(ReviewError::DetailListRuleMissing),
    };
    let content_rule = match rule.detail_content_rule() {
        Some(content_rule) => content_rule,
        None => return Err(ReviewError::DetailContentRuleMissing),
    };
    let first = match rule.detail_url() {
        Some(first) => first,
        None => return Err(ReviewError::DetailUrlMissing),
    };
    let page = if page == 0 {
        1
    } else {
        page
    };
    let place = Place { book, chapter, para_index, para_data, review_id: None, page };
    let url_rule = if page == 1 {
        first.to_owned()
    } else {
        let key = detail_cache_key(ns, source, book, chapter, para_index, para_data, page);
        match get_next_url(cache, key.as_str()) {
            Some(url) => url,
            None => first.to_owned(),
        }
    };
    let setup = PageSetup {
        source,
        rule,
        place,
        url_rule,
        list_rule,
        content_rule,
        role: Role::Review,
    };
    let tail: Vec<Answer> = Vec::new();
    assert(tail.deep_view() =~= Seq::empty());
    Ok(DetailRun { ns, run: PageRun::new(setup), tail })
}

} // verus!
