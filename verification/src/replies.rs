//! The replies to a review.

use crate::detail::at_least_one;
use crate::dialog::{answers, Answer, AnswerView, Progress, Question};
use crate::item::{all_legible, Role};
use crate::model::{
    filled, filled_in, filled_in_or, Book, BookChapter, BookSource, DetailPage, DetailPageView,
    Place, ReviewError, ReviewItemView, ReviewRule,
};
use crate::page_run::{PageProgress, PageRun, PageSetup, PageState, PageStep, PageView};
use crate::paging::{
    has_more_replies, limit_in, more_replies, query_pairs_of, response_page_limit, response_total,
    total_of,
};
use vstd::prelude::*;
use vstd::string::*;

verus! {

/// Why the replies to a review cannot be asked for, if they cannot: the first that holds.
pub open spec fn replies_refusal(rule: Option<ReviewRule>) -> Option<ReviewError> {
    match rule {
        None => Some(ReviewError::RuleMissing),
        Some(rule) => if !rule.enabled {
            Some(ReviewError::RuleDisabled)
        } else if filled_in(rule.review_quote_url) is None {
            Some(ReviewError::ReplyUrlMissing)
        } else if filled_in(rule.reply_list_rule) is None {
            Some(ReviewError::ReplyListRuleMissing)
        } else if filled_in_or(rule.reply_content_rule, rule.content_rule) is None {
            Some(ReviewError::ReplyContentRuleMissing)
        } else {
            None
        },
    }
}

/// The page of replies, once its items are read. A page that lists replies of which none can be
/// read is a failure.
pub open spec fn closed_replies(
    page_number: u32,
    page: PageView,
    items: Seq<ReviewItemView>,
) -> Progress<DetailPageView> {
    if page.texts.len() > 0 && items.len() == 0 {
        Progress::Fail(ReviewError::ReplyUnreadable)
    } else {
        Progress::Done(
            DetailPageView {
                items,
                next_page_url: None,
                has_more: more_replies(
                    page_number as int,
                    limit_in(query_pairs_of(page.url)) as int,
                    total_of(page.body),
                    items.len() as int,
                ),
            },
        )
    }
}

/// Is this how a run for a page of replies starts? Nothing is answered yet, and pages are counted
/// from one.
pub open spec fn replies_start<'a>(
    state: PageState<'a>,
    source: &'a BookSource,
    book: &'a Book,
    chapter: &'a BookChapter,
    para_index: i64,
    para_data: &'a str,
    review_id: &'a str,
    page: u32,
) -> bool {
    let rule = source.rule_review->0;
    let setup = state.setup;
    &&& state == PageState::fresh(setup)
    &&& setup.source == source
    &&& *setup.rule == rule
    &&& setup.place == (Place {
        book,
        chapter,
        para_index,
        para_data,
        review_id: Some(review_id),
        page: at_least_one(page),
    })
    &&& Some(setup.url_rule@) == filled_in(rule.review_quote_url)
    &&& Some(setup.list_rule@) == filled_in(rule.reply_list_rule)
    &&& Some(setup.content_rule@) == filled_in_or(rule.reply_content_rule, rule.content_rule)
    &&& setup.role is Reply
}

/// What is needed next for a page of replies, or what ends the run.
pub open spec fn replies_progress(state: PageState) -> Progress<DetailPageView> {
    match state.progress() {
        PageProgress::Ask(question) => Progress::Ask(question),
        PageProgress::Fail(error) => Progress::Fail(error),
        PageProgress::Read(page, items) => closed_replies(state.setup.place.page, page, items),
    }
}

/// The state once `answer` is given. An answer of another kind than was asked for changes nothing.
pub open spec fn replies_after<'a>(state: PageState<'a>, answer: AnswerView) -> PageState<'a> {
    if replies_progress(state).takes(answer) {
        state.after(answer)
    } else {
        state
    }
}

/// The state once the answers are given, one after the other.
pub open spec fn replies_after_all<'a>(state: PageState<'a>, answers: Seq<AnswerView>) -> PageState<
    'a,
>
    decreases answers.len(),
{
    if answers.len() == 0 {
        state
    } else {
        replies_after(replies_after_all(state, answers.drop_last()), answers.last())
    }
}

/// The replies to a review, being asked for.
pub struct RepliesRun<'a> {
    run: PageRun<'a>,
}

impl<'a> RepliesRun<'a> {
    /// How far the run has come.
    pub closed spec fn state(self) -> PageState<'a> {
        self.run.state()
    }

    #[verifier::type_invariant]
    closed spec fn well_formed(self) -> bool {
        self.run.well_formed()
    }

    /// The question that the run waits on, if it is not over.
    pub fn question(&self) -> (r: Option<Question>)
        ensures
            r.deep_view() == replies_progress(self.state()).question(),
    {
        proof {
            use_type_invariant(self);
        }
        match self.run.progress() {
            PageStep::Ask(question) => Some(question),
            _ => None,
        }
    }

    /// Goes on with an answer. An answer of another kind than was asked for changes nothing.
    pub fn answer(self, answer: Answer) -> (r: RepliesRun<'a>)
        ensures
            r.state() == replies_after(self.state(), answer.deep_view()),
    {
        proof {
            use_type_invariant(&self);
        }
        match self.question() {
            Some(question) => if !answers(&question, &answer) {
                return self;
            },
            None => return self,
        }
        RepliesRun { run: self.run.after(answer) }
    }

    /// Ends the run.
    pub fn finish(self) -> (r: Result<DetailPage, ReviewError>)
        requires
            replies_progress(self.state()).question() is None,
        ensures
            r matches Ok(page) ==> all_legible(page.items.deep_view()),
            match r {
                Ok(page) => replies_progress(self.state()) == Progress::Done(page.deep_view()),
                Err(error) => replies_progress(self.state()) == Progress::<DetailPageView>::Fail(
                    error,
                ),
            },
    {
        proof {
            use_type_invariant(&self);
        }
        match self.run.progress() {
            PageStep::Fail(error) => return Err(error),
            _ => {},
        }
        let has_more = match &self.run.page {
            Some(page) => {
                if page.texts.len() > 0 && self.run.items.len() == 0 {
                    return Err(ReviewError::ReplyUnreadable);
                }
                has_more_replies(
                    self.run.setup.place.page,
                    response_page_limit(page.url.as_str()),
                    response_total(page.body.as_str()),
                    self.run.items.len(),
                )
            },
            None => false,
        };
        Ok(DetailPage { items: self.run.items, next_page_url: None, has_more })
    }
}

/// Starts to ask for the replies to a review, one page of them. Pages are counted from one.
pub fn get_replies<'a>(
    source: &'a BookSource,
    book: &'a Book,
    chapter: &'a BookChapter,
    para_index: i64,
    para_data: &'a str,
    review_id: &'a str,
    page: u32,
) -> (r: Result<RepliesRun<'a>, ReviewError>)
    ensures
        match r {
            Ok(run) => {
                &&& replies_refusal(source.rule_review) is None
                &&& replies_start(
                    run.state(),
                    source,
                    book,
                    chapter,
                    para_index,
                    para_data,
                    review_id,
                    page,
                )
            },
            Err(error) => replies_refusal(source.rule_review) == Some(error),
        },
{
    let rule = match &source.rule_review {
        Some(rule) => rule,
        None => return Err(ReviewError::RuleMissing),
    };
    if !rule.enabled {
        return Err(ReviewError::RuleDisabled);
    }
    let url_rule = match filled(&rule.review_quote_url) {
        Some(url_rule) => url_rule.to_owned(),
        None => return Err(ReviewError::ReplyUrlMissing),
    };
    let list_rule = match filled(&rule.reply_list_rule) {
        Some(list_rule) => list_rule,
        None => return Err(ReviewError::ReplyListRuleMissing),
    };
    let content_rule = match rule.reply_content_rule() {
        Some(content_rule) => content_rule,
        None => return Err(ReviewError::ReplyContentRuleMissing),
    };
    let page = if page == 0 {
        1
    } else {
        page
    };
    let place = Place { book, chapter, para_index, para_data, review_id: Some(review_id), page };
    let setup = PageSetup {
        source,
        rule,
        place,
        url_rule,
        list_rule,
        content_rule,
        role: Role::Reply,
    };
    Ok(RepliesRun { run: PageRun::new(setup) })
}

} // verus!
