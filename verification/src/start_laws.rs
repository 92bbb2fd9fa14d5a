//! When a run starts and when it is refused, and which settings of the rule it goes by.

use crate::detail::{detail_refusal, DetailState};
use crate::item::Role;
use crate::item_laws::is_set;
use crate::model::{Book, BookChapter, BookSource, ReviewError, ReviewRule};
use crate::page_run::{PageSetup, PageState};
use crate::replies::{replies_refusal, replies_start};
use crate::summary::SummaryState;
use vstd::prelude::*;

verus! {

/// Reviews are refused for the first of these reasons that holds, and for no other: the source has
/// no rule; the rule is switched off; it does not list reviews; it finds no content; it has no
/// address.
pub proof fn law_reviews_are_refused(rule: Option<ReviewRule>)
    ensures
        detail_refusal(rule) == Some(ReviewError::RuleMissing) <==> rule is None,
        detail_refusal(rule) == Some(ReviewError::RuleDisabled) <==> rule is Some
            && !rule->0.enabled,
        detail_refusal(rule) == Some(ReviewError::DetailListRuleMissing) <==> rule is Some
            && rule->0.enabled && !is_set(rule->0.detail_list_rule),
        detail_refusal(rule) == Some(ReviewError::DetailContentRuleMissing) <==> rule is Some
            && rule->0.enabled && is_set(rule->0.detail_list_rule) && !is_set(
            rule->0.detail_content_rule,
        ) && !is_set(rule->0.content_rule),
        detail_refusal(rule) == Some(ReviewError::DetailUrlMissing) <==> rule is Some
            && rule->0.enabled && is_set(rule->0.detail_list_rule) && (is_set(
            rule->0.detail_content_rule,
        ) || is_set(rule->0.content_rule)) && !is_set(rule->0.review_detail_url) && !is_set(
            rule->0.review_url,
        ),
        detail_refusal(rule) is None <==> rule is Some && rule->0.enabled && is_set(
            rule->0.detail_list_rule,
        ) && (is_set(rule->0.detail_content_rule) || is_set(rule->0.content_rule)) && (is_set(
            rule->0.review_detail_url,
        ) || is_set(rule->0.review_url)),
{
}

/// Replies are refused for the first of these reasons that holds, and for no other: the source has
/// no rule; the rule is switched off; it has no address for replies; it does not list replies; it
/// finds no content.
pub proof fn law_replies_are_refused(rule: Option<ReviewRule>)
    ensures
        replies_refusal(rule) == Some(ReviewError::RuleMissing) <==> rule is None,
        replies_refusal(rule) == Some(ReviewError::RuleDisabled) <==> rule is Some
            && !rule->0.enabled,
        replies_refusal(rule) == Some(ReviewError::ReplyUrlMissing) <==> rule is Some
            && rule->0.enabled && !is_set(rule->0.review_quote_url),
        replies_refusal(rule) == Some(ReviewError::ReplyListRuleMissing) <==> rule is Some
            && rule->0.enabled && is_set(rule->0.review_quote_url) && !is_set(
            rule->0.reply_list_rule,
        ),
        replies_refusal(rule) == Some(ReviewError::ReplyContentRuleMissing) <==> rule is Some
            && rule->0.enabled && is_set(rule->0.review_quote_url) && is_set(
            rule->0.reply_list_rule,
        ) && !is_set(rule->0.reply_content_rule) && !is_set(rule->0.content_rule),
        replies_refusal(rule) is None <==> rule is Some && rule->0.enabled && is_set(
            rule->0.review_quote_url,
        ) && is_set(rule->0.reply_list_rule) && (is_set(rule->0.reply_content_rule) || is_set(
            rule->0.content_rule,
        )),
{
}

/// The setting that counts: the first where it is set, else the second.
pub open spec fn first_set(first: Option<String>, second: Option<String>) -> Seq<char> {
    if is_set(first) {
        first->0@
    } else {
        second->0@
    }
}

/// Does the run ask about this place?
pub open spec fn asks_about(
    setup: PageSetup,
    source: &BookSource,
    book: &Book,
    chapter: &BookChapter,
    para_index: i64,
    para_data: &str,
    review_id: Option<&str>,
    page: u32,
) -> bool {
    &&& setup.source == source
    &&& *setup.rule == source.rule_review->0
    &&& setup.place.book == book
    &&& setup.place.chapter == chapter
    &&& setup.place.para_index == para_index
    &&& setup.place.para_data == para_data
    &&& setup.place.review_id == review_id
    &&& setup.place.page == (if page == 0 {
        1
    } else {
        page
    })
}

/// A run for reviews goes by the settings for reviews: it lists them by `detail_list_rule`, finds
/// their content by `detail_content_rule` or else `content_rule`, and asks for its first page at
/// `review_detail_url` or else `review_url`.
pub proof fn law_reviews_go_by_their_settings(
    state: DetailState,
    ns: Seq<char>,
    source: &BookSource,
    book: &Book,
    chapter: &BookChapter,
    para_index: i64,
    para_data: &str,
    page: u32,
    cache: Map<Seq<char>, Seq<char>>,
)
    requires
        detail_refusal(source.rule_review) is None,
        state.starts(ns, source, book, chapter, para_index, para_data, page, cache),
    ensures
        state.ns == ns,
        state.page == PageState::fresh(state.page.setup),
        state.tail.len() == 0,
        asks_about(
            state.page.setup,
            source,
            book,
            chapter,
            para_index,
            para_data,
            None,
            page,
        ),
        state.page.setup.role == Role::Review,
        state.page.setup.list_rule@ == source.rule_review->0.detail_list_rule->0@,
        state.page.setup.content_rule@ == first_set(
            source.rule_review->0.detail_content_rule,
            source.rule_review->0.content_rule,
        ),
        page <= 1 ==> state.page.setup.url_rule@ == first_set(
            source.rule_review->0.review_detail_url,
            source.rule_review->0.review_url,
        ),
{
}

/// A run for replies goes by the settings for replies: it asks at `review_quote_url`, lists replies
/// by `reply_list_rule`, and finds their content by `reply_content_rule` or else `content_rule`.
pub proof fn law_replies_go_by_their_settings(
    state: PageState,
    source: &BookSource,
    book: &Book,
    chapter: &BookChapter,
    para_index: i64,
    para_data: &str,
    review_id: &str,
    page: u32,
)
    requires
        replies_refusal(source.rule_review) is None,
        replies_start(
            state,
            source,
            book,
            chapter,
            para_index,
            para_data,
            review_id,
            page,
        ),
    ensures
        state == PageState::fresh(state.setup),
        asks_about(
            state.setup,
            source,
            book,
            chapter,
            para_index,
            para_data,
            Some(review_id),
            page,
        ),
        state.setup.role == Role::Reply,
        state.setup.url_rule@ == source.rule_review->0.review_quote_url->0@,
        state.setup.list_rule@ == source.rule_review->0.reply_list_rule->0@,
        state.setup.content_rule@ == first_set(
            source.rule_review->0.reply_content_rule,
            source.rule_review->0.content_rule,
        ),
{
}

/// A run for a summary goes by the settings for summaries, and asks about the whole chapter. There
/// is something to be asked exactly where the rule is switched on and its address and the rules
/// for the list, the index and the count are set; the rule for the data may be missing.
pub proof fn law_summaries_go_by_their_settings(
    state: SummaryState,
    source: &BookSource,
    book: &Book,
    chapter: &BookChapter,
)
    requires
        state.starts(source, book, chapter),
    ensures
        state == SummaryState::fresh(state.setup),
        state.setup is Some <==> source.rule_review is Some && source.rule_review->0.enabled
            && is_set(source.rule_review->0.review_summary_url) && is_set(
            source.rule_review->0.summary_list_rule,
        ) && is_set(source.rule_review->0.summary_paragraph_index_rule) && is_set(
            source.rule_review->0.summary_count_rule,
        ),
        state.setup matches Some(setup) ==> {
            let rule = source.rule_review->0;
            &&& setup.source == source
            &&& setup.place.book == book
            &&& setup.place.chapter == chapter
            &&& setup.place.para_index == -1
            &&& setup.place.para_data == ""
            &&& setup.place.review_id is None
            &&& setup.place.page == 1
            &&& setup.url_rule@ == rule.review_summary_url->0@
            &&& setup.list_rule@ == rule.summary_list_rule->0@
            &&& setup.index_rule@ == rule.summary_paragraph_index_rule->0@
            &&& setup.count_rule@ == rule.summary_count_rule->0@
            &&& if is_set(rule.summary_paragraph_data_rule) {
                setup.data_rule is Some && setup.data_rule->0@
                    == rule.summary_paragraph_data_rule->0@
            } else {
                setup.data_rule is None
            }
        },
{
}

} // verus!
