//! Where the next page of reviews was said to be, remembered from one page to the next.

use crate::fetch::{by_name, Pairs};
use crate::model::{Book, BookChapter, BookSource};
use crate::text::{decimal, decimal_text, same};
use vstd::prelude::*;
use vstd::string::*;

verus! {

/// How many addresses are remembered at most.
pub const DETAIL_NEXT_URLS_MAX: usize = 512;

/// The addresses of next pages, by the key of the page. At most `DETAIL_NEXT_URLS_MAX` of them are
/// remembered.
#[derive(Debug)]
pub struct NextUrls {
    entries: Vec<(String, String)>,
}

/// No name comes twice.
pub open spec fn distinct_names(pairs: Pairs) -> bool {
    forall|i: int, j: int|
        0 <= i < j < pairs.len() ==> (#[trigger] pairs[i]).0 != (#[trigger] pairs[j]).0
}

impl View for NextUrls {
    type V = Map<Seq<char>, Seq<char>>;

    /// The remembered addresses, by key.
    closed spec fn view(&self) -> Map<Seq<char>, Seq<char>> {
        by_name(self.entries.deep_view())
    }
}

/// The pairs with `url` put in for `key`. Where there is no room for another name, the first pair
/// makes room.
spec fn put_in(pairs: Pairs, key: Seq<char>, url: Seq<char>) -> Map<Seq<char>, Seq<char>> {
    if by_name(pairs).contains_key(key) || pairs.len() < DETAIL_NEXT_URLS_MAX {
        by_name(pairs).insert(key, url)
    } else {
        by_name(pairs).remove(pairs[0].0).insert(key, url)
    }
}

impl NextUrls {
    /// What is remembered once `url` is put in for `key`. That depends on nothing but what the
    /// cache has gone through; which address is forgotten where there is no room is left open.
    pub closed spec fn with(self, key: Seq<char>, url: Seq<char>) -> Map<Seq<char>, Seq<char>> {
        put_in(self.entries.deep_view(), key, url)
    }

    #[verifier::type_invariant]
    closed spec fn well_formed(&self) -> bool {
        &&& self.entries.len() <= DETAIL_NEXT_URLS_MAX
        &&& distinct_names(self.entries.deep_view())
    }

    /// Nothing is remembered yet.
    pub fn new() -> (r: NextUrls)
        ensures
            r@ == Map::<Seq<char>, Seq<char>>::empty(),
    {
        NextUrls { entries: Vec::new() }
    }

    /// How many addresses are remembered.
    pub fn len(&self) -> (r: usize)
        ensures
            self@.dom().finite(),
            r == self@.len(),
            r <= DETAIL_NEXT_URLS_MAX,
    {
        proof {
            use_type_invariant(self);
            lemma_by_name(self.entries.deep_view());
        }
        self.entries.len()
    }
}

/// Where no name comes twice, the values by name are those of the pairs.
proof fn lemma_by_name(pairs: Pairs)
    requires
        distinct_names(pairs),
    ensures
        by_name(pairs).dom().finite(),
        by_name(pairs).len() == pairs.len(),
        forall|i: int|
            0 <= i < pairs.len() ==> by_name(pairs).contains_key((#[trigger] pairs[i]).0)
                && by_name(pairs)[pairs[i].0] == pairs[i].1,
        forall|name: Seq<char>| #[trigger]
            by_name(pairs).contains_key(name) ==> exists|i: int|
                0 <= i < pairs.len() && (#[trigger] pairs[i]).0 == name,
    decreases pairs.len(),
{
    if pairs.len() > 0 {
        let front = pairs.drop_last();
        assert forall|i: int, j: int| 0 <= i < j < front.len() implies (#[trigger] front[i]).0 != (
        #[trigger] front[j]).0 by {
            assert(front[i] == pairs[i] && front[j] == pairs[j]);
        }
        lemma_by_name(front);
        let last = pairs.last();
        if by_name(front).contains_key(last.0) {
            let i = choose|i: int| 0 <= i < front.len() && (#[trigger] front[i]).0 == last.0;
            assert(pairs[i].0 != pairs[pairs.len() - 1].0);
        }
        assert forall|i: int| 0 <= i < pairs.len() implies by_name(pairs).contains_key(
            (#[trigger] pairs[i]).0,
        ) && by_name(pairs)[pairs[i].0] == pairs[i].1 by {
            if i < front.len() {
                assert(front[i] == pairs[i]);
                assert(pairs[i].0 != pairs[pairs.len() - 1].0);
            }
        }
        assert forall|name: Seq<char>| #[trigger] by_name(pairs).contains_key(name) implies exists|
            i: int,
        | 0 <= i < pairs.len() && (#[trigger] pairs[i]).0 == name by {
            if name == last.0 {
                assert(pairs[pairs.len() - 1].0 == name);
            } else {
                assert(by_name(front).contains_key(name));
                let i = choose|i: int| 0 <= i < front.len() && (#[trigger] front[i]).0 == name;
                assert(pairs[i].0 == name);
            }
        }
    } else {
        assert(by_name(pairs).dom() =~= Set::empty());
    }
}

/// Where no name comes twice, taking a pair out takes its name out.
proof fn lemma_by_name_remove(pairs: Pairs, at: int)
    requires
        distinct_names(pairs),
        0 <= at < pairs.len(),
    ensures
        distinct_names(pairs.remove(at)),
        by_name(pairs.remove(at)) == by_name(pairs).remove(pairs[at].0),
{
    let less = pairs.remove(at);
    assert forall|i: int, j: int| 0 <= i < j < less.len() implies (#[trigger] less[i]).0 != (
    #[trigger] less[j]).0 by {
        let a = if i < at {
            i
        } else {
            i + 1
        };
        let b = if j < at {
            j
        } else {
            j + 1
        };
        assert(less[i] == pairs[a] && less[j] == pairs[b]);
    }
    lemma_by_name(pairs);
    lemma_by_name(less);
    let name = pairs[at].0;
    assert forall|k: Seq<char>|
        by_name(less).contains_key(k) == by_name(pairs).remove(name).contains_key(k) && (by_name(
            less,
        ).contains_key(k) ==> by_name(less)[k] == by_name(pairs)[k]) by {
        if by_name(less).contains_key(k) {
            let i = choose|i: int| 0 <= i < less.len() && (#[trigger] less[i]).0 == k;
            let a = if i < at {
                i
            } else {
                i + 1
            };
            assert(less[i] == pairs[a]);
            if a < at {
                assert(pairs[a].0 != pairs[at].0);
            } else {
                assert(pairs[at].0 != pairs[a].0);
            }
        }
        if by_name(pairs).contains_key(k) && k != name {
            let i = choose|i: int| 0 <= i < pairs.len() && (#[trigger] pairs[i]).0 == k;
            let a = if i < at {
                i
            } else {
                i - 1
            };
            assert(less[a] == pairs[i]);
        }
    }
    assert(by_name(less) =~= by_name(pairs).remove(name));
}

/// The key of a page of reviews: the reader, the source, the book, the chapter, the paragraph and
/// the page, so that no address is used in another place than where it was found.
pub open spec fn page_key(
    ns: Seq<char>,
    source_url: Seq<char>,
    book_url: Seq<char>,
    chapter_url: Seq<char>,
    para_index: int,
    para_data: Seq<char>,
    page: int,
) -> Seq<char> {
    ns + "\0"@ + source_url + "\0"@ + book_url + "\0"@ + chapter_url + "\0"@ + decimal(para_index)
        + "\0"@ + para_data + "\0"@ + decimal(page)
}

/// The key of a page of reviews.
pub fn detail_cache_key(
    ns: &str,
    source: &BookSource,
    book: &Book,
    chapter: &BookChapter,
    para_index: i64,
    para_data: &str,
    page: u32,
) -> (r: String)
    ensures
        r@ == page_key(
            ns@,
            source.book_source_url@,
            book.book_url@,
            chapter.url@,
            para_index as int,
            para_data@,
            page as int,
        ),
{
    ns.to_owned().concat("\0").concat(source.book_source_url.as_str()).concat("\0").concat(
        book.book_url.as_str(),
    ).concat("\0").concat(chapter.url.as_str()).concat("\0").concat(
        decimal_text(para_index).as_str(),
    ).concat("\0").concat(para_data).concat("\0").concat(decimal_text(page as i64).as_str())
}

/// The position of the pair with the given name.
fn position(pairs: &Vec<(String, String)>, name: &str) -> (r: Option<usize>)
    requires
        distinct_names(pairs.deep_view()),
    ensures
        match r {
            Some(i) => i < pairs.len() && pairs@[i as int].0@ == name@ && by_name(
                pairs.deep_view(),
            ).contains_key(name@) && by_name(pairs.deep_view())[name@] == pairs@[i as int].1@,
            None => !by_name(pairs.deep_view()).contains_key(name@),
        },
{
    proof {
        lemma_by_name(pairs.deep_view());
    }
    let mut i: usize = 0;
    while i < pairs.len()
        invariant
            i <= pairs.len(),
            distinct_names(pairs.deep_view()),
            forall|j: int| 0 <= j < i ==> (#[trigger] pairs.deep_view()[j]).0 != name@,
        decreases pairs.len() - i,
    {
        assert(pairs.deep_view()[i as int] == pairs@[i as int].deep_view());
        if same(pairs[i].0.as_str(), name) {
            proof {
                lemma_by_name(pairs.deep_view());
            }
            return Some(i);
        }
        i += 1;
    }
    None
}

/// The address that is remembered for a key.
pub fn get_next_url(cache: &NextUrls, key: &str) -> (r: Option<String>)
    ensures
        r.deep_view() == remembered(cache@, key@),
{
    proof {
        use_type_invariant(cache);
    }
    match position(&cache.entries, key) {
        Some(i) => Some(cache.entries[i].1.clone()),
        None => None,
    }
}

/// `after` is `before` with `url` put in for `key`. Where there is no room for another key, some
/// other key is taken out.
pub open spec fn remembers(
    before: Map<Seq<char>, Seq<char>>,
    after: Map<Seq<char>, Seq<char>>,
    key: Seq<char>,
    url: Seq<char>,
) -> bool {
    if before.contains_key(key) || before.len() < DETAIL_NEXT_URLS_MAX {
        after == before.insert(key, url)
    } else {
        exists|other: Seq<char>| #[trigger]
            before.contains_key(other) && after == before.remove(other).insert(key, url)
    }
}

/// The address that is remembered for a key.
pub open spec fn remembered(
    cache: Map<Seq<char>, Seq<char>>,
    key: Seq<char>,
) -> Option<Seq<char>> {
    if cache.contains_key(key) {
        Some(cache[key])
    } else {
        None
    }
}

/// A pair with a new name, put behind the others.
proof fn lemma_by_name_push(pairs: Pairs, key: Seq<char>, url: Seq<char>)
    requires
        distinct_names(pairs),
        !by_name(pairs).contains_key(key),
    ensures
        distinct_names(pairs.push((key, url))),
        by_name(pairs.push((key, url))) == by_name(pairs).insert(key, url),
{
    let longer = pairs.push((key, url));
    lemma_by_name(pairs);
    assert(longer.drop_last() =~= pairs);
    assert forall|i: int, j: int| 0 <= i < j < longer.len() implies (#[trigger] longer[i]).0 != (
    #[trigger] longer[j]).0 by {
        if j == pairs.len() {
            assert(by_name(pairs).contains_key(pairs[i].0));
        } else {
            assert(pairs[i].0 != pairs[j].0);
        }
    }
}

/// Putting an address in is remembering it.
proof fn lemma_put_in(pairs: Pairs, key: Seq<char>, url: Seq<char>)
    requires
        distinct_names(pairs),
    ensures
        remembers(by_name(pairs), put_in(pairs, key, url), key, url),
{
    lemma_by_name(pairs);
    if !by_name(pairs).contains_key(key) && pairs.len() >= DETAIL_NEXT_URLS_MAX {
        assert(by_name(pairs).contains_key(pairs[0].0));
    }
}

/// Remembers an address for a key, in place of an earlier one. Where there is no room for another
/// key, some other address is forgotten.
pub fn put_next_url(cache: &mut NextUrls, key: String, url: String)
    ensures
        final(cache)@ == old(cache).with(key@, url@),
        remembers(old(cache)@, final(cache)@, key@, url@),
{
    proof {
        use_type_invariant(&*cache);
    }
    let mut entries: Vec<(String, String)> = Vec::new();
    std::mem::swap(&mut entries, &mut cache.entries);
    let ghost before = entries.deep_view();
    proof {
        lemma_by_name(before);
        lemma_put_in(before, key@, url@);
    }
    match position(&entries, key.as_str()) {
        Some(i) => {
            proof {
                lemma_by_name_remove(before, i as int);
            }
            let _ = entries.remove(i);
            assert(entries.deep_view() =~= before.remove(i as int));
            assert(by_name(before).remove(key@).insert(key@, url@) =~= by_name(before).insert(
                key@,
                url@,
            ));
        },
        None => {
            if entries.len() >= DETAIL_NEXT_URLS_MAX {
                proof {
                    lemma_by_name_remove(before, 0);
                }
                let _ = entries.remove(0);
                assert(entries.deep_view() =~= before.remove(0));
            }
        },
    }
    let ghost kept = entries.deep_view();
    let ghost added = (key@, url@);
    proof {
        lemma_by_name_push(kept, key@, url@);
    }
    entries.push((key, url));
    assert(entries.deep_view() =~= kept.push(added));
    cache.entries = entries;
}

} // verus!
