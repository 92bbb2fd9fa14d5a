//! The rule of a book source, and what comes of carrying it out.

use crate::text::{blank, is_blank};
use std::collections::HashMap;
use vstd::prelude::*;
use vstd::string::*;

verus! {

/// How a book source's reviews are asked for and read. Every rule may be left out.
#[derive(Debug, Clone, Default)]
pub struct ReviewRule {
    pub review_url: Option<String>,
    pub avatar_rule: Option<String>,
    pub content_rule: Option<String>,
    pub post_time_rule: Option<String>,
    pub review_quote_url: Option<String>,
    pub review_summary_url: Option<String>,
    pub summary_list_rule: Option<String>,
    pub summary_paragraph_index_rule: Option<String>,
    pub summary_paragraph_data_rule: Option<String>,
    pub summary_count_rule: Option<String>,
    pub review_detail_url: Option<String>,
    pub review_detail_next_page_url: Option<String>,
    pub detail_list_rule: Option<String>,
    pub detail_id_rule: Option<String>,
    pub detail_avatar_rule: Option<String>,
    pub detail_name_rule: Option<String>,
    pub detail_badge_rule: Option<String>,
    pub detail_content_rule: Option<String>,
    pub reply_list_rule: Option<String>,
    pub reply_id_rule: Option<String>,
    pub reply_avatar_rule: Option<String>,
    pub reply_name_rule: Option<String>,
    pub reply_badge_rule: Option<String>,
    pub reply_content_rule: Option<String>,
    pub enabled: bool,
}

/// The text of a setting that is there and not blank.
pub open spec fn filled_in(setting: Option<String>) -> Option<Seq<char>> {
    match setting {
        Some(s) => if is_blank(s@) {
            None
        } else {
            Some(s@)
        },
        None => None,
    }
}

/// The first setting where it is filled in, else the second where that is.
pub open spec fn filled_in_or(first: Option<String>, second: Option<String>) -> Option<Seq<char>> {
    match filled_in(first) {
        Some(s) => Some(s),
        None => filled_in(second),
    }
}

/// The text of a setting that is there and not blank.
pub fn filled(setting: &Option<String>) -> (r: Option<&str>)
    ensures
        r.deep_view() == filled_in(*setting),
{
    match setting {
        Some(s) => if blank(s.as_str()) {
            None
        } else {
            Some(s.as_str())
        },
        None => None,
    }
}

/// The first setting where it is filled in, else the second where that is.
fn filled_or<'a>(first: &'a Option<String>, second: &'a Option<String>) -> (r: Option<&'a str>)
    ensures
        r.deep_view() == filled_in_or(*first, *second),
{
    match filled(first) {
        Some(s) => Some(s),
        None => filled(second),
    }
}

impl ReviewRule {
    /// Where the reviews of a paragraph are asked for: the detail address, else the general one.
    pub fn detail_url(&self) -> (r: Option<&str>)
        ensures
            r.deep_view() == filled_in_or(self.review_detail_url, self.review_url),
    {
        filled_or(&self.review_detail_url, &self.review_url)
    }

    /// How the reviews of a paragraph are told apart.
    pub fn detail_list_rule(&self) -> (r: Option<&str>)
        ensures
            r.deep_view() == filled_in(self.detail_list_rule),
    {
        filled(&self.detail_list_rule)
    }

    /// How the content of a review is found: the detail rule, else the general one.
    pub fn detail_content_rule(&self) -> (r: Option<&str>)
        ensures
            r.deep_view() == filled_in_or(self.detail_content_rule, self.content_rule),
    {
        filled_or(&self.detail_content_rule, &self.content_rule)
    }

    /// How the content of a reply is found: the reply rule, else the general one.
    pub fn reply_content_rule(&self) -> (r: Option<&str>)
        ensures
            r.deep_view() == filled_in_or(self.reply_content_rule, self.content_rule),
    {
        filled_or(&self.reply_content_rule, &self.content_rule)
    }
}

/// A review, or a reply to one.
#[derive(Debug, Default)]
pub struct ReviewItem {
    pub id: Option<String>,
    pub avatar: Option<String>,
    pub name: Option<String>,
    pub reply_to_name: Option<String>,
    pub badges: Vec<String>,
    pub content: Option<String>,
    pub image_url: Option<String>,
    pub audio_url: Option<String>,
    pub time: Option<String>,
    pub like_count: Option<i64>,
    pub reply_count: Option<i64>,
    pub replies: Vec<ReviewItem>,
}

/// A review as a mathematical value.
#[verifier::ext_equal]
pub struct ReviewItemView {
    pub id: Option<Seq<char>>,
    pub avatar: Option<Seq<char>>,
    pub name: Option<Seq<char>>,
    pub reply_to_name: Option<Seq<char>>,
    pub badges: Seq<Seq<char>>,
    pub content: Option<Seq<char>>,
    pub image_url: Option<Seq<char>>,
    pub audio_url: Option<Seq<char>>,
    pub time: Option<Seq<char>>,
    pub like_count: Option<i64>,
    pub reply_count: Option<i64>,
    pub replies: Seq<ReviewItemView>,
}

impl ReviewItem {
    /// The review as a mathematical value, and so its replies.
    pub open spec fn model(&self) -> ReviewItemView
        decreases self,
    {
        ReviewItemView {
            id: self.id.deep_view(),
            avatar: self.avatar.deep_view(),
            name: self.name.deep_view(),
            reply_to_name: self.reply_to_name.deep_view(),
            badges: self.badges.deep_view(),
            content: self.content.deep_view(),
            image_url: self.image_url.deep_view(),
            audio_url: self.audio_url.deep_view(),
            time: self.time.deep_view(),
            like_count: self.like_count,
            reply_count: self.reply_count,
            replies: Seq::new(
                self.replies@.len(),
                |i: int|
                    if 0 <= i < self.replies@.len() {
                        self.replies@[i].model()
                    } else {
                        arbitrary()
                    },
            ),
        }
    }
}

impl ReviewItem {
    /// The replies of a review's model are the models of its replies.
    pub proof fn lemma_replies(&self)
        ensures
            self.model().replies.len() == self.replies@.len(),
            forall|i: int|
                0 <= i < self.replies@.len() ==> #[trigger] self.model().replies[i]
                    == self.replies@[i].model(),
            self.model().replies == self.replies.deep_view(),
    {
        assert forall|i: int| 0 <= i < self.replies@.len() implies
            #[trigger] self.model().replies[i] == self.replies@[i].model() by {
            reveal_with_fuel(ReviewItem::model, 2);
        }
        assert(self.model().replies =~= self.replies.deep_view());
    }
}

/// A copy of each of the texts.
pub fn copy_texts(v: &Vec<String>) -> (r: Vec<String>)
    ensures
        r.deep_view() == v.deep_view(),
{
    let mut r: Vec<String> = Vec::new();
    let mut i: usize = 0;
    while i < v.len()
        invariant
            i <= v.len(),
            r@.len() == i,
            forall|j: int| 0 <= j < i ==> r@[j]@ == #[trigger] v@[j]@,
        decreases v.len() - i,
    {
        r.push(v[i].clone());
        i += 1;
    }
    assert(r.deep_view() =~= v.deep_view());
    r
}

/// A copy of the text.
pub fn copy_text(s: &Option<String>) -> (r: Option<String>)
    ensures
        r.deep_view() == s.deep_view(),
{
    match s {
        Some(t) => Some(t.clone()),
        None => None,
    }
}

impl Clone for ReviewItem {
    fn clone(&self) -> (r: Self)
        ensures
            r.deep_view() == self.deep_view(),
        decreases self,
    {
        let mut replies: Vec<ReviewItem> = Vec::new();
        let mut i: usize = 0;
        while i < self.replies.len()
            invariant
                i <= self.replies@.len(),
                replies@.len() == i,
                forall|j: int|
                    0 <= j < i ==> replies@[j].model() == #[trigger] self.replies@[j].model(),
            decreases self.replies.len() - i,
        {
            let reply = self.replies[i].clone();
            replies.push(reply);
            i += 1;
        }
        let r = ReviewItem {
            id: copy_text(&self.id),
            avatar: copy_text(&self.avatar),
            name: copy_text(&self.name),
            reply_to_name: copy_text(&self.reply_to_name),
            badges: copy_texts(&self.badges),
            content: copy_text(&self.content),
            image_url: copy_text(&self.image_url),
            audio_url: copy_text(&self.audio_url),
            time: copy_text(&self.time),
            like_count: self.like_count,
            reply_count: self.reply_count,
            replies,
        };
        proof {
            r.lemma_replies();
            self.lemma_replies();
            assert(r.model().replies =~= self.model().replies);
        }
        r
    }
}

impl DeepView for ReviewItem {
    type V = ReviewItemView;

    open spec fn deep_view(&self) -> ReviewItemView {
        self.model()
    }
}

/// How many reviews each paragraph of a chapter has.
#[derive(Debug, Clone)]
pub struct SummaryResult {
    /// Paragraph index to number of reviews.
    pub counts: HashMap<i64, i64>,
    /// Paragraph index to the data that goes with the paragraph when its reviews are asked for.
    pub keys: HashMap<i64, String>,
}

/// A summary as a mathematical value.
#[verifier::ext_equal]
pub struct SummaryView {
    pub counts: Map<i64, i64>,
    pub keys: Map<i64, Seq<char>>,
}

/// The summary of a chapter without reviews.
pub open spec fn empty_summary() -> SummaryView {
    SummaryView { counts: Map::empty(), keys: Map::empty() }
}

impl DeepView for SummaryResult {
    type V = SummaryView;

    open spec fn deep_view(&self) -> SummaryView {
        SummaryView { counts: self.counts@, keys: self.keys@.map_values(|s: String| s@) }
    }
}

impl Default for SummaryResult {
    fn default() -> (r: Self)
        ensures
            r.deep_view() == empty_summary(),
    {
        let r = SummaryResult { counts: HashMap::new(), keys: HashMap::new() };
        assert(r.deep_view().keys =~= Map::empty());
        r
    }
}

/// A page of reviews or of replies.
#[derive(Debug, Clone, Default)]
pub struct DetailPage {
    pub items: Vec<ReviewItem>,
    pub next_page_url: Option<String>,
    pub has_more: bool,
}

/// A page as a mathematical value.
#[verifier::ext_equal]
pub struct DetailPageView {
    pub items: Seq<ReviewItemView>,
    pub next_page_url: Option<Seq<char>>,
    pub has_more: bool,
}

impl DeepView for DetailPage {
    type V = DetailPageView;

    open spec fn deep_view(&self) -> DetailPageView {
        DetailPageView {
            items: self.items.deep_view(),
            next_page_url: self.next_page_url.deep_view(),
            has_more: self.has_more,
        }
    }
}

/// What is read of a book source.
#[derive(Debug, Clone, Default)]
pub struct BookSource {
    pub book_source_url: String,
    pub header: Option<String>,
    pub proxy_url: Option<String>,
    pub rule_review: Option<ReviewRule>,
}

/// What is read of a book.
#[derive(Debug, Clone, Default)]
pub struct Book {
    pub book_url: String,
    pub name: String,
    pub author: String,
}

/// What is read of a chapter.
#[derive(Debug, Clone, Default)]
pub struct BookChapter {
    pub url: String,
    pub title: String,
    pub index: i64,
}

/// What of a book is asked about: a paragraph of a chapter, one of its reviews where replies are
/// wanted, and the page, counted from one.
#[derive(Debug, Clone, Copy)]
pub struct Place<'a> {
    pub book: &'a Book,
    pub chapter: &'a BookChapter,
    pub para_index: i64,
    pub para_data: &'a str,
    pub review_id: Option<&'a str>,
    pub page: u32,
}

impl<'a> Place<'a> {
    /// The review whose replies are wanted, or the empty text.
    pub open spec fn review(self) -> Seq<char> {
        match self.review_id {
            Some(id) => id@,
            None => Seq::empty(),
        }
    }
}

/// Why no reviews could be given.
#[derive(Debug, Clone, Copy, PartialEq, Eq, Structural)]
pub enum ReviewError {
    /// The source has no review rule.
    RuleMissing,
    /// The source's review rule is switched off.
    RuleDisabled,
    /// The rule does not say how to tell reviews apart.
    DetailListRuleMissing,
    /// The rule does not say how to find a review's content.
    DetailContentRuleMissing,
    /// The rule does not say where reviews are asked for.
    DetailUrlMissing,
    /// The page listed reviews, but none of them could be read.
    DetailUnreadable,
    /// The rule does not say where replies are asked for.
    ReplyUrlMissing,
    /// The rule does not say how to tell replies apart.
    ReplyListRuleMissing,
    /// The rule does not say how to find a reply's content.
    ReplyContentRuleMissing,
    /// The page listed replies, but none of them could be read.
    ReplyUnreadable,
    /// The address that was put together is empty.
    UrlEmpty,
    /// A script or a request failed.
    CallFailed,
}

impl ReviewError {
    /// What a reader is told.
    pub open spec fn told(self) -> Option<Seq<char>> {
        match self {
            ReviewError::RuleMissing => Some("段评规则未配置"@),
            ReviewError::RuleDisabled => Some("段评规则未启用"@),
            ReviewError::DetailListRuleMissing => Some("段评详情列表规则未配置"@),
            ReviewError::DetailContentRuleMissing => Some("段评详情内容规则未配置"@),
            ReviewError::DetailUrlMissing => Some("段评详情地址未配置"@),
            ReviewError::DetailUnreadable => Some("段评详情解析为空"@),
            ReviewError::ReplyUrlMissing => Some("段评回复地址未配置"@),
            ReviewError::ReplyListRuleMissing => Some("段评回复列表规则未配置"@),
            ReviewError::ReplyContentRuleMissing => Some("段评回复内容规则未配置"@),
            ReviewError::ReplyUnreadable => Some("段评回复解析为空"@),
            ReviewError::UrlEmpty => Some("段评请求地址为空"@),
            ReviewError::CallFailed => None,
        }
    }

    /// What a reader is told. A call that failed tells its own reason.
    pub fn message(&self) -> (r: Option<&'static str>)
        ensures
            r.deep_view() == self.told(),
    {
        match self {
            ReviewError::RuleMissing => Some("段评规则未配置"),
            ReviewError::RuleDisabled => Some("段评规则未启用"),
            ReviewError::DetailListRuleMissing => Some("段评详情列表规则未配置"),
            ReviewError::DetailContentRuleMissing => Some("段评详情内容规则未配置"),
            ReviewError::DetailUrlMissing => Some("段评详情地址未配置"),
            ReviewError::DetailUnreadable => Some("段评详情解析为空"),
            ReviewError::ReplyUrlMissing => Some("段评回复地址未配置"),
            ReviewError::ReplyListRuleMissing => Some("段评回复列表规则未配置"),
            ReviewError::ReplyContentRuleMissing => Some("段评回复内容规则未配置"),
            ReviewError::ReplyUnreadable => Some("段评回复解析为空"),
            ReviewError::UrlEmpty => Some("段评请求地址为空"),
            ReviewError::CallFailed => None,
        }
    }
}

} // verus!
