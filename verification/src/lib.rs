//! Paragraph reviews for a book reader: the rules by which a book source's review pages are asked
//! for, read and put together.
//!
//! A call starts with `get_summary`, `get_detail` or `get_replies`. Each gives a run, which puts
//! its questions one at a time: a request to be sent, a script or a rule to be carried out. It goes
//! on with the answers and ends with a result or a failure. Module `whole` and
//! the modules of laws state what holds of the runs and of the library as a whole: `fetch_laws`,
//! `item_laws` and `run_laws` say which questions a run puts and what comes of the answers.

pub mod text;
pub mod model;
pub mod vars;
pub mod dialog;
pub mod url_rule;
pub mod fetch;
pub mod json;
pub mod content;
pub mod item;
pub mod page_run;
pub mod next_urls;
pub mod paging;
pub mod detail;
pub mod replies;
pub mod summary;
pub mod steady;
pub mod whole;
pub mod laws;
pub mod badge_laws;
pub mod plays;
pub mod fetch_laws;
pub mod item_laws;
pub mod run_laws;
pub mod template_laws;
pub mod start_laws;
pub mod value_laws;
pub mod view_laws;

pub use crate::detail::{get_detail, DetailRun};
pub use crate::dialog::{Answer, FetchResponse, HttpRequest, Question, UrlSuffix};
pub use crate::model::{
    Book, BookChapter, BookSource, DetailPage, ReviewError, ReviewItem, ReviewRule, SummaryResult,
};
pub use crate::next_urls::NextUrls;
pub use crate::replies::{get_replies, RepliesRun};
pub use crate::summary::{get_summary, SummaryRun};
