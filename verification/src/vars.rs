//! The variables that rules and scripts can read.

use crate::model::{Book, BookChapter, Place};
use crate::text::{decimal, decimal_text};
use vstd::prelude::*;
use vstd::string::*;

verus! {

/// What scripts can read about the book and the chapter.
#[derive(Debug, Clone, Default)]
pub struct RuleContext {
    pub chapter_title: String,
    pub chapter_url: String,
    pub chapter_index: String,
    pub book_name: String,
    pub book_author: String,
    pub book_url: String,
}

/// The context as a mathematical value.
#[verifier::ext_equal]
pub struct RuleContextView {
    pub chapter_title: Seq<char>,
    pub chapter_url: Seq<char>,
    pub chapter_index: Seq<char>,
    pub book_name: Seq<char>,
    pub book_author: Seq<char>,
    pub book_url: Seq<char>,
}

impl DeepView for RuleContext {
    type V = RuleContextView;

    open spec fn deep_view(&self) -> RuleContextView {
        RuleContextView {
            chapter_title: self.chapter_title@,
            chapter_url: self.chapter_url@,
            chapter_index: self.chapter_index@,
            book_name: self.book_name@,
            book_author: self.book_author@,
            book_url: self.book_url@,
        }
    }
}

/// The variables of a rule: named texts, and the context for scripts.
#[derive(Debug, Clone, Default)]
pub struct RuleVars {
    pub entries: Vec<(String, String)>,
    pub context: RuleContext,
}

/// The variables as a mathematical value.
#[verifier::ext_equal]
pub struct RuleVarsView {
    pub entries: Seq<(Seq<char>, Seq<char>)>,
    pub context: RuleContextView,
}

impl DeepView for RuleVars {
    type V = RuleVarsView;

    open spec fn deep_view(&self) -> RuleVarsView {
        RuleVarsView { entries: self.entries.deep_view(), context: self.context.deep_view() }
    }
}

/// The variables at `place`, where `result` is the text at hand.
pub open spec fn rule_vars(place: Place, result: Seq<char>) -> RuleVarsView {
    RuleVarsView {
        entries: seq![
            ("result"@, result),
            ("baseUrl"@, place.chapter.url@),
            ("page"@, decimal(place.page as int)),
            ("paraIndex"@, decimal(place.para_index as int)),
            ("paraData"@, place.para_data@),
            ("reviewId"@, place.review()),
            ("key"@, place.para_data@),
            ("src"@, result),
        ],
        context: RuleContextView {
            chapter_title: place.chapter.title@,
            chapter_url: place.chapter.url@,
            chapter_index: decimal(place.chapter.index as int),
            book_name: place.book.name@,
            book_author: place.book.author@,
            book_url: place.book.book_url@,
        },
    }
}

/// The variables at a place of a book, where `result` is the text at hand.
pub fn review_rule_vars(
    book: &Book,
    chapter: &BookChapter,
    para_index: i64,
    para_data: &str,
    review_id: Option<&str>,
    page: u32,
    result: &str,
) -> (r: RuleVars)
    ensures
        r.deep_view() == rule_vars(
            (Place { book, chapter, para_index, para_data, review_id, page }),
            result@,
        ),
{
    let review = match review_id {
        Some(id) => id,
        None => "",
    };
    let mut entries: Vec<(String, String)> = Vec::new();
    entries.push(("result".to_owned(), result.to_owned()));
    entries.push(("baseUrl".to_owned(), chapter.url.clone()));
    entries.push(("page".to_owned(), decimal_text(page as i64)));
    entries.push(("paraIndex".to_owned(), decimal_text(para_index)));
    entries.push(("paraData".to_owned(), para_data.to_owned()));
    entries.push(("reviewId".to_owned(), review.to_owned()));
    entries.push(("key".to_owned(), para_data.to_owned()));
    entries.push(("src".to_owned(), result.to_owned()));
    let context = RuleContext {
        chapter_title: chapter.title.clone(),
        chapter_url: chapter.url.clone(),
        chapter_index: decimal_text(chapter.index),
        book_name: book.name.clone(),
        book_author: book.author.clone(),
        book_url: book.book_url.clone(),
    };
    let r = RuleVars { entries, context };
    proof {
        reveal_strlit("");
        let place = Place { book, chapter, para_index, para_data, review_id, page };
        assert(review@ =~= place.review());
        assert(r.deep_view().entries =~= rule_vars(place, result@).entries);
    }
    r
}

/// The variables at `place`, where `result` is the text at hand.
pub fn vars_at(place: &Place, result: &str) -> (r: RuleVars)
    ensures
        r.deep_view() == rule_vars(*place, result@),
{
    review_rule_vars(
        place.book,
        place.chapter,
        place.para_index,
        place.para_data,
        place.review_id,
        place.page,
        result,
    )
}

} // verus!
