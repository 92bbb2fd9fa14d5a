//! Whether there are more replies than a page shows.

use crate::json::{
    json_member, json_object, json_object_of, member, object_members, Json, JsonView,
};
use crate::text::{lowered, read_u32, same_lowered, u32_of};
use vstd::prelude::*;
use vstd::string::*;

verus! {

/// How many replies a page holds where its address does not say.
pub const PAGE_LIMIT: u32 = 20;

/// How many replies a page is taken to hold at most.
pub const PAGE_LIMIT_MAX: u32 = 50;

/// The names and values in the query of an address, if it is an absolute address.
pub uninterp spec fn query_pairs_of(url: Seq<char>) -> Option<Seq<(Seq<char>, Seq<char>)>>;

/// `url::Url::parse` and `url::Url::query_pairs`: the names and values in the query of an address,
/// in their order, if it is an absolute address. What they are is left to `query_pairs_of`.
#[verifier::external_body]
pub(crate) fn query_pairs(url: &str) -> (r: Option<Vec<(String, String)>>)
    ensures
        r.deep_view() == query_pairs_of(url@),
{
    let url = url::Url::parse(url).ok()?;
    Some(url.query_pairs().into_owned().collect())
}

/// The first value with the name `limit`, whatever its case.
pub open spec fn first_limit(pairs: Seq<(Seq<char>, Seq<char>)>) -> Option<Seq<char>>
    decreases pairs.len(),
{
    if pairs.len() == 0 {
        None
    } else if lowered(pairs[0].0) == lowered("limit"@) {
        Some(pairs[0].1)
    } else {
        first_limit(pairs.drop_first())
    }
}

/// How many replies a page holds: the first limit in its address, where that is a number from one
/// on, else `PAGE_LIMIT`; never more than `PAGE_LIMIT_MAX`.
pub open spec fn limit_in(pairs: Option<Seq<(Seq<char>, Seq<char>)>>) -> u32 {
    let said = match pairs {
        Some(pairs) => match first_limit(pairs) {
            Some(value) => u32_of(value),
            None => None,
        },
        None => None,
    };
    match said {
        Some(n) => if n == 0 {
            PAGE_LIMIT
        } else if n > PAGE_LIMIT_MAX {
            PAGE_LIMIT_MAX
        } else {
            n
        },
        None => PAGE_LIMIT,
    }
}

/// How many replies a page holds, by the query of its address.
pub fn page_limit(pairs: &Option<Vec<(String, String)>>) -> (r: u32)
    ensures
        r == limit_in(pairs.deep_view()),
{
    let list = match pairs {
        Some(list) => list,
        None => return PAGE_LIMIT,
    };
    let mut i: usize = 0;
    assert(list.deep_view().skip(0) =~= list.deep_view());
    while i < list.len()
        invariant
            i <= list.len(),
            *pairs == Some(*list),
            first_limit(list.deep_view()) == first_limit(list.deep_view().skip(i as int)),
        decreases list.len() - i,
    {
        proof {
            let left = list.deep_view().skip(i as int);
            assert(left[0] == list@[i as int].deep_view());
            assert(left.drop_first() =~= list.deep_view().skip(i + 1));
        }
        if same_lowered(list[i].0.as_str(), "limit") {
            return match read_u32(list[i].1.as_str()) {
                Some(n) => if n == 0 {
                    PAGE_LIMIT
                } else if n > PAGE_LIMIT_MAX {
                    PAGE_LIMIT_MAX
                } else {
                    n
                },
                None => PAGE_LIMIT,
            };
        }
        i += 1;
    }
    PAGE_LIMIT
}

/// How many replies a page holds, by its address.
pub fn response_page_limit(url: &str) -> (r: u32)
    ensures
        r == limit_in(query_pairs_of(url@)),
{
    page_limit(&query_pairs(url))
}

/// A JSON number as a count; negative integers count as zero.
pub open spec fn count_in(value: Option<JsonView>) -> Option<u64> {
    match value {
        Some(JsonView::Number(n)) => match n.uint {
            Some(n) => Some(n),
            None => match n.int {
                Some(n) => Some(
                    if n < 0 {
                        0
                    } else {
                        n as u64
                    },
                ),
                None => None,
            },
        },
        _ => None,
    }
}

/// The total that an object tells, as its own member or that of its member `data`, where it has
/// one.
pub open spec fn total_in(members: Map<Seq<char>, JsonView>) -> Option<u64> {
    match member(members, "data"@) {
        Some(JsonView::Object(data)) => count_in(member(data, "total"@)),
        Some(_) => None,
        None => count_in(member(members, "total"@)),
    }
}

/// The total that a text tells as a JSON object.
pub open spec fn total_of(body: Seq<char>) -> Option<u64> {
    match json_object_of(body) {
        Some(members) => total_in(members),
        None => None,
    }
}

/// A JSON number as a count; negative integers count as zero.
pub fn read_count(value: Option<Json>) -> (r: Option<u64>)
    ensures
        r == count_in(value.deep_view()),
{
    match value {
        Some(Json::Number(n)) => match n.uint {
            Some(n) => Some(n),
            None => match n.int {
                Some(n) => Some(
                    if n < 0 {
                        0
                    } else {
                        n as u64
                    },
                ),
                None => None,
            },
        },
        _ => None,
    }
}

/// The total that an object tells, as its own member or that of its member `data`, where it has
/// one.
pub fn total_told(object: &serde_json::Map<String, serde_json::Value>) -> (r: Option<u64>)
    ensures
        r == total_in(object_members(*object)),
{
    match json_member(object, "data") {
        Some(Json::Object(data)) => read_count(json_member(&data, "total")),
        Some(_) => None,
        None => read_count(json_member(object, "total")),
    }
}

/// How many replies there are in all, by what the page says.
pub fn response_total(body: &str) -> (r: Option<u64>)
    ensures
        r == total_of(body@),
{
    match json_object(body) {
        Some(object) => total_told(&object),
        None => None,
    }
}

/// Are there more replies behind this page? By the total where it is told, else by whether the
/// page is full; and never behind an empty page.
pub open spec fn more_replies(page: int, limit: int, total: Option<u64>, count: int) -> bool {
    count > 0 && match total {
        Some(total) => page * limit < total,
        None => count >= limit,
    }
}

/// Are there more replies behind this page?
pub fn has_more_replies(page: u32, limit: u32, total: Option<u64>, count: usize) -> (r: bool)
    ensures
        r == more_replies(page as int, limit as int, total, count as int),
{
    count > 0 && match total {
        Some(total) => {
            assert(page * limit <= u32::MAX * u32::MAX) by (nonlinear_arith)
                requires
                    page <= u32::MAX,
                    limit <= u32::MAX,
            ;
            (page as u64) * (limit as u64) < total
        },
        None => count >= limit as usize,
    }
}

} // verus!
