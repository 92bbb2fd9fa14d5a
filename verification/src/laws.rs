//! What holds of the library as a whole.

use crate::content::{
    badges_of, content_protocol, json_number, json_text, kept, legible_text, protocol_of,
    some_text, well_written, ContentFieldsView, ContentProtocolView,
};
use crate::dialog::{
    ask_ready, ask_text, AnswerView, FetchResponseView, Outcome, Progress, QuestionView,
};
use crate::detail::{detail_refusal, detail_url_rule, key_at, one_page_on, DetailState};
use crate::model::{
    empty_summary, filled_in_or, Book, BookChapter, BookSource, DetailPageView, Place,
    ReviewItemView, ReviewRule, SummaryView,
};
use crate::fetch::{by_name, extended, fetched, without, Pairs};
use crate::item::{
    author_of, avatar_of, completed, content_of, depth, field_of, found_in, legible_alone,
    nested_texts, nothing_said, read_item, read_items, resolved, single_item, with_item, FoundView,
    ReadingView,
};
use crate::json::{JsonNumberView, JsonView};
use crate::next_urls::{
    distinct_names, remembered, remembers, NextUrls, DETAIL_NEXT_URLS_MAX,
};
use crate::page_run::{
    items_by, listed, opened, PageProgress, PageSetup, PageState, PageView,
};
use crate::paging::{count_in, limit_in, query_pairs_of, total_of, PAGE_LIMIT_MAX};
use crate::replies::{
    replies_after_all, replies_progress, replies_refusal, replies_start,
};
use crate::summary::{
    counted, entry_result, read_entry, summary_by, EntryView, SummarySetup, SummaryState,
};
use crate::text::{
    decimal, digits, digits_value, i64_of, integer_of, is_digit, is_white, replaced, stands_at,
    trimmed, trimmed_end, trimmed_start,
};
use crate::url_rule::{placed, templated};
use vstd::prelude::*;

verus! {

/// What is left of a text without leading white space.
proof fn lemma_trimmed_start(s: Seq<char>)
    ensures
        trimmed_start(s).len() <= s.len(),
        trimmed_start(s).len() > 0 ==> !is_white(trimmed_start(s)[0]),
        trimmed_start(s).len() > 0 ==> s.len() > 0 && trimmed_start(s).last() == s.last(),
    decreases s.len(),
{
    if s.len() > 0 && is_white(s[0]) {
        lemma_trimmed_start(s.drop_first());
    }
}

/// What is left of a text without trailing white space.
pub proof fn lemma_trimmed_end(s: Seq<char>)
    ensures
        trimmed_end(s).len() <= s.len(),
        trimmed_end(s).len() > 0 ==> !is_white(trimmed_end(s).last()),
        trimmed_end(s).len() > 0 ==> s.len() > 0 && trimmed_end(s)[0] == s[0],
    decreases s.len(),
{
    if s.len() > 0 && is_white(s.last()) {
        lemma_trimmed_end(s.drop_last());
    }
}

/// A text that was trimmed has no white space on either side, and there is nothing more to trim.
pub proof fn law_trimmed_text_stays(s: Seq<char>)
    ensures
        trimmed(trimmed(s)) == trimmed(s),
        trimmed(s).len() > 0 ==> !is_white(trimmed(s)[0]) && !is_white(trimmed(s).last()),
{
    lemma_trimmed_start(s);
    lemma_trimmed_end(trimmed_start(s));
}

/// A text that is kept is not empty, and it is kept as it is from then on.
pub proof fn law_kept_text_stays(s: Seq<char>)
    ensures
        some_text(s) matches Some(text) ==> text.len() > 0 && some_text(text) == Some(text),
{
    law_trimmed_text_stays(s);
}

proof fn lemma_kept(texts: Seq<Seq<char>>)
    ensures
        forall|i: int|
            0 <= i < kept(texts).len() ==> some_text(#[trigger] kept(texts)[i]) == Some(
                kept(texts)[i],
            ),
    decreases texts.len(),
{
    if texts.len() > 0 {
        lemma_kept(texts.drop_last());
        law_kept_text_stays(texts.last());
    }
}

/// No badge is blank, and none has white space on either side.
pub proof fn law_badges_are_texts(value: Seq<char>)
    ensures
        forall|i: int|
            0 <= i < badges_of(value).len() ==> some_text(#[trigger] badges_of(value)[i]) == Some(
                badges_of(value)[i],
            ),
{
    assert forall|texts: Seq<Seq<char>>, i: int| 0 <= i < kept(texts).len() implies some_text(
        #[trigger] kept(texts)[i],
    ) == Some(kept(texts)[i]) by {
        lemma_kept(texts);
    }
}

/// The digits of a number stand for it.
proof fn lemma_digits(n: nat)
    ensures
        digits(n).len() > 0,
        forall|i: int| 0 <= i < digits(n).len() ==> is_digit(#[trigger] digits(n)[i]),
        digits_value(digits(n)) == n,
    decreases n,
{
    if n < 10 {
        assert(digits(n).drop_last() =~= Seq::empty());
        assert(digits_value(Seq::empty()) == 0);
        assert(digits(n).last() as int == 48 + n);
    } else {
        lemma_digits(n / 10);
        assert(digits(n).drop_last() =~= digits(n / 10));
        assert(digits(n).last() as int == 48 + n % 10);
    }
}

/// A number written down is read as the same number.
pub proof fn law_number_is_read_as_written(n: i64)
    ensures
        i64_of(decimal(n as int)) == Some(n),
{
    lemma_decimal(n as int);
}

/// A number written down stands for that number, and is made of digits and a minus sign.
pub proof fn lemma_decimal(n: int)
    ensures
        integer_of(decimal(n)) == Some(n),
        decimal(n).len() > 0,
        forall|i: int|
            0 <= i < decimal(n).len() ==> is_digit(#[trigger] decimal(n)[i]) || decimal(n)[i]
                == '-',
{
    if n < 0 {
        lemma_digits((-n) as nat);
        assert(decimal(n).drop_first() =~= digits((-n) as nat));
    } else {
        lemma_digits(n as nat);
        assert(is_digit(digits(n as nat)[0]));
    }
}

/// Does the character that parts a key not occur in the text?
pub open spec fn without_nul(s: Seq<char>) -> bool {
    forall|i: int| 0 <= i < s.len() ==> #[trigger] s[i] != '\0'
}

/// A text up to its first parting character tells what stands before it and what behind.
proof fn lemma_first_part(a: Seq<char>, x: Seq<char>, b: Seq<char>, y: Seq<char>)
    requires
        without_nul(a),
        without_nul(b),
        a + seq!['\0'] + x == b + seq!['\0'] + y,
    ensures
        a == b,
        x == y,
{
    let s = a + seq!['\0'] + x;
    let t = b + seq!['\0'] + y;
    assert(s[a.len() as int] == '\0');
    assert(t[b.len() as int] == '\0');
    if a.len() < b.len() {
        assert(t[a.len() as int] == b[a.len() as int]);
    }
    if b.len() < a.len() {
        assert(s[b.len() as int] == a[b.len() as int]);
    }
    assert(a =~= s.take(a.len() as int));
    assert(b =~= t.take(b.len() as int));
    assert(x =~= s.skip(a.len() as int + 1));
    assert(y =~= t.skip(b.len() as int + 1));
}

/// A text from its last parting character on tells what stands before it and what behind.
proof fn lemma_last_part(x: Seq<char>, a: Seq<char>, y: Seq<char>, b: Seq<char>)
    requires
        without_nul(a),
        without_nul(b),
        x + seq!['\0'] + a == y + seq!['\0'] + b,
    ensures
        a == b,
        x == y,
{
    let s = x + seq!['\0'] + a;
    let t = y + seq!['\0'] + b;
    assert(s[x.len() as int] == '\0');
    assert(t[y.len() as int] == '\0');
    assert(s.len() == x.len() + 1 + a.len());
    assert(t.len() == y.len() + 1 + b.len());
    if x.len() < y.len() {
        assert(s[y.len() as int] == a[y.len() - x.len() - 1]);
    }
    if y.len() < x.len() {
        assert(t[x.len() as int] == b[x.len() - y.len() - 1]);
    }
    assert(a =~= s.skip(x.len() as int + 1));
    assert(b =~= t.skip(y.len() as int + 1));
    assert(x =~= s.take(x.len() as int));
    assert(y =~= t.take(y.len() as int));
}

proof fn lemma_decimal_part(n: int, m: int)
    ensures
        without_nul(decimal(n)),
        decimal(n) == decimal(m) ==> n == m,
{
    lemma_decimal(n);
    lemma_decimal(m);
}

proof fn lemma_regroup(front: Seq<char>, part: Seq<char>, rest: Seq<char>)
    ensures
        front + part + seq!['\0'] + rest == front + (part + seq!['\0'] + rest),
{
    assert(front + part + seq!['\0'] + rest =~= front + (part + seq!['\0'] + rest));
}

/// A key, taken apart from the front.
proof fn lemma_key_parts(ns: Seq<char>, source: BookSource, place: Place)
    ensures
        ({
            let nul = seq!['\0'];
            let data = place.para_data@ + nul + decimal(place.page as int);
            let paragraph = decimal(place.para_index as int) + nul + data;
            let chapter = place.chapter.url@ + nul + paragraph;
            let book = place.book.book_url@ + nul + chapter;
            let rest = source.book_source_url@ + nul + book;
            key_at(ns, source, place) == ns + nul + rest
        }),
{
    reveal_strlit("\0");
    let nul = seq!['\0'];
    assert("\0"@ =~= nul);
    let page = decimal(place.page as int);
    let index = decimal(place.para_index as int);
    let data = place.para_data@ + nul + page;
    let paragraph = index + nul + data;
    let chapter = place.chapter.url@ + nul + paragraph;
    let book = place.book.book_url@ + nul + chapter;
    let to_source = ns + nul + source.book_source_url@;
    let to_book = to_source + nul + place.book.book_url@;
    let to_chapter = to_book + nul + place.chapter.url@;
    let to_index = to_chapter + nul + index;
    lemma_regroup(to_index + nul, place.para_data@, page);
    lemma_regroup(to_chapter + nul, index, data);
    lemma_regroup(to_book + nul, place.chapter.url@, paragraph);
    lemma_regroup(to_source + nul, place.book.book_url@, chapter);
    lemma_regroup(ns + nul, source.book_source_url@, book);
}

/// Are the reader's name and the addresses in a key without the character that parts it?
pub open spec fn key_parts_are_plain(ns: Seq<char>, source: BookSource, place: Place) -> bool {
    &&& without_nul(ns)
    &&& without_nul(source.book_source_url@)
    &&& without_nul(place.book.book_url@)
    &&& without_nul(place.chapter.url@)
}

/// Two pages have the same key only where they are the same page: of the same reader, source, book,
/// chapter and paragraph. A name or an address that holds the parting character itself is left out.
pub proof fn law_key_tells_pages_apart(
    ns: Seq<char>,
    source: BookSource,
    place: Place,
    ns2: Seq<char>,
    source2: BookSource,
    place2: Place,
)
    requires
        key_parts_are_plain(ns, source, place),
        key_parts_are_plain(ns2, source2, place2),
        key_at(ns, source, place) == key_at(ns2, source2, place2),
    ensures
        ns == ns2,
        source.book_source_url@ == source2.book_source_url@,
        place.book.book_url@ == place2.book.book_url@,
        place.chapter.url@ == place2.chapter.url@,
        place.para_index == place2.para_index,
        place.para_data@ == place2.para_data@,
        place.page == place2.page,
{
    let (source_url, source_url2) = (source.book_source_url@, source2.book_source_url@);
    let (book_url, book_url2) = (place.book.book_url@, place2.book.book_url@);
    let (chapter_url, chapter_url2) = (place.chapter.url@, place2.chapter.url@);
    let (para_index, para_index2) = (place.para_index as int, place2.para_index as int);
    let (para_data, para_data2) = (place.para_data@, place2.para_data@);
    let (page, page2) = (place.page as int, place2.page as int);
    let nul = seq!['\0'];
    let s5 = para_data + nul + decimal(page);
    let s4 = decimal(para_index) + nul + s5;
    let s3 = chapter_url + nul + s4;
    let s2 = book_url + nul + s3;
    let s1 = source_url + nul + s2;
    let t5 = para_data2 + nul + decimal(page2);
    let t4 = decimal(para_index2) + nul + t5;
    let t3 = chapter_url2 + nul + t4;
    let t2 = book_url2 + nul + t3;
    let t1 = source_url2 + nul + t2;
    lemma_key_parts(ns, source, place);
    lemma_key_parts(ns2, source2, place2);
    lemma_decimal_part(para_index, para_index2);
    lemma_decimal_part(para_index2, para_index);
    lemma_decimal_part(page, page2);
    lemma_decimal_part(page2, page);
    lemma_first_part(ns, s1, ns2, t1);
    lemma_first_part(source_url, s2, source_url2, t2);
    lemma_first_part(book_url, s3, book_url2, t3);
    lemma_first_part(chapter_url, s4, chapter_url2, t4);
    lemma_first_part(decimal(para_index), s5, decimal(para_index2), t5);
    lemma_last_part(para_data, decimal(page), para_data2, decimal(page2));
}

/// A remembered address comes back for its key. For another key nothing else comes back than
/// before: the same address, or none where there was no room. Where there was room, nothing is
/// forgotten.
pub proof fn law_remembered_address_comes_back(
    before: Map<Seq<char>, Seq<char>>,
    after: Map<Seq<char>, Seq<char>>,
    key: Seq<char>,
    url: Seq<char>,
    other: Seq<char>,
)
    requires
        remembers(before, after, key, url),
        other != key,
    ensures
        remembered(after, key) == Some(url),
        remembered(after, other) == remembered(before, other) || remembered(after, other) is None,
        before.contains_key(key) || before.len() < DETAIL_NEXT_URLS_MAX ==> remembered(after, other)
            == remembered(before, other),
{
}

/// However many addresses come, no more than `DETAIL_NEXT_URLS_MAX` are remembered.
pub proof fn law_few_addresses_are_remembered(
    before: Map<Seq<char>, Seq<char>>,
    after: Map<Seq<char>, Seq<char>>,
    key: Seq<char>,
    url: Seq<char>,
)
    requires
        before.dom().finite(),
        before.len() <= DETAIL_NEXT_URLS_MAX,
        remembers(before, after, key, url),
    ensures
        after.dom().finite(),
        after.len() <= DETAIL_NEXT_URLS_MAX,
{
    if before.contains_key(key) || before.len() < DETAIL_NEXT_URLS_MAX {
        assert(after.dom() =~= before.dom().insert(key));
    } else {
        let other = choose|other: Seq<char>| #[trigger]
            before.contains_key(other) && after == before.remove(other).insert(key, url);
        assert(after.dom() =~= before.dom().remove(other).insert(key));
    }
}

/// The first page is asked for at the first address of the rule, whatever is remembered, and so is
/// a page for which no address is remembered.
pub proof fn law_first_page_has_first_address(
    ns: Seq<char>,
    source: BookSource,
    rule: ReviewRule,
    place: Place,
    cache: Map<Seq<char>, Seq<char>>,
)
    requires
        filled_in_or(rule.review_detail_url, rule.review_url) is Some,
        place.page == 1 || remembered(cache, key_at(ns, source, place)) is None,
    ensures
        Some(detail_url_rule(ns, source, rule, place, cache)) == filled_in_or(
            rule.review_detail_url,
            rule.review_url,
        ),
{
}

/// The page behind one that gave an address for it has that address, for as long as the address is
/// remembered.
pub proof fn law_next_page_has_found_address(
    ns: Seq<char>,
    source: BookSource,
    rule: ReviewRule,
    place: Place,
    before: Map<Seq<char>, Seq<char>>,
    after: Map<Seq<char>, Seq<char>>,
    now: Map<Seq<char>, Seq<char>>,
    next: Seq<char>,
)
    requires
        1 <= place.page < u32::MAX,
        remembers(before, after, key_at(ns, source, one_page_on(place)), next),
        remembered(now, key_at(ns, source, one_page_on(place))) == remembered(
            after,
            key_at(ns, source, one_page_on(place)),
        ),
    ensures
        detail_url_rule(ns, source, rule, one_page_on(place), now) == next,
{
}

/// The request of a run for the page behind one that gave an address for it is the request of that
/// address, one page on, with everything else as it was. `second` is a run as it is when it starts
/// with what is remembered by then in `now`; it holds up to the last page number.
pub proof fn law_next_run_asks_at_found_address(
    first: DetailState,
    found: DetailPageView,
    next: Seq<char>,
    before: Map<Seq<char>, Seq<char>>,
    after: Map<Seq<char>, Seq<char>>,
    now: Map<Seq<char>, Seq<char>>,
    second: DetailState,
    answers: Seq<AnswerView>,
)
    requires
        first.progress() == Progress::Done(found),
        found.next_page_url == Some(next),
        1 <= first.page.setup.place.page < u32::MAX,
        remembers(before, after, first.next_key(), next),
        remembered(now, first.next_key()) == remembered(after, first.next_key()),
        second.ns == first.ns,
        second.page.setup.source == first.page.setup.source,
        second.page.setup.place == one_page_on(first.page.setup.place),
        second.page.setup.url_rule@ == detail_url_rule(
            second.ns,
            *second.page.setup.source,
            *second.page.setup.rule,
            second.page.setup.place,
            now,
        ),
    ensures
        ({
            let setup = second.page.setup;
            let old_place = first.page.setup.place;
            &&& setup.place.page == old_place.page + 1
            &&& setup.place.para_index == old_place.para_index
            &&& setup.place.para_data == old_place.para_data
            &&& setup.place.review_id == old_place.review_id
            &&& opened(*setup.source, setup.place, setup.url_rule@, setup.list_rule@, answers)
                == fetched(*setup.source, setup.place, next, answers).then_with(
                |response: FetchResponseView, rest: Seq<AnswerView>|
                    listed(setup.place, setup.list_rule@, response, rest),
            )
        }),
{
    let place = first.page.setup.place;
    law_next_page_has_found_address(
        first.ns,
        *first.page.setup.source,
        *second.page.setup.rule,
        place,
        before,
        after,
        now,
        next,
    );
    reveal(opened);
}

/// Do the two ask for the same in the same way?
spec fn same_setup(a: PageSetup, b: PageSetup) -> bool {
    &&& a.source == b.source
    &&& *a.rule == *b.rule
    &&& a.place == b.place
    &&& a.url_rule@ == b.url_rule@
    &&& a.list_rule@ == b.list_rule@
    &&& a.content_rule@ == b.content_rule@
    &&& a.role == b.role
}

/// Have the two pages come equally far with the same answers?
spec fn same_page(a: PageState, b: PageState) -> bool {
    &&& same_setup(a.setup, b.setup)
    &&& a.head == b.head
    &&& a.rows == b.rows
    &&& a.current == b.current
}

proof fn lemma_same_page(a: PageState, b: PageState, answer: AnswerView)
    requires
        same_page(a, b),
    ensures
        a.progress() == b.progress(),
        same_page(a.after(answer), b.after(answer)),
{
}

proof fn lemma_same_detail(a: DetailState, b: DetailState, answers: Seq<AnswerView>)
    requires
        a.ns == b.ns,
        same_page(a.page, b.page),
        a.tail == b.tail,
    ensures
        a.after_all(answers).ns == b.after_all(answers).ns,
        same_page(a.after_all(answers).page, b.after_all(answers).page),
        a.after_all(answers).tail == b.after_all(answers).tail,
        a.after_all(answers).progress() == b.after_all(answers).progress(),
    decreases answers.len(),
{
    if answers.len() > 0 {
        let (x, y) = (a.after_all(answers.drop_last()), b.after_all(answers.drop_last()));
        lemma_same_detail(a, b, answers.drop_last());
        lemma_same_page(x.page, y.page, answers.last());
    }
    let (x, y) = (a.after_all(answers), b.after_all(answers));
    lemma_same_page(x.page, y.page, AnswerView::Ready);
}

/// Page zero of the reviews of a paragraph is page one. A run for either is asked for at the first
/// address as page one; given the same answers, the two ask the same, end the same, and leave the
/// same remembered.
pub proof fn law_page_zero_is_page_one(
    ns: Seq<char>,
    source: &BookSource,
    book: &Book,
    chapter: &BookChapter,
    para_index: i64,
    para_data: &str,
    cache: NextUrls,
    zero: DetailState,
    one: DetailState,
    answers: Seq<AnswerView>,
)
    requires
        detail_refusal(source.rule_review) is None,
        zero.starts(ns, source, book, chapter, para_index, para_data, 0, cache@),
        one.starts(ns, source, book, chapter, para_index, para_data, 1, cache@),
    ensures
        zero.page.setup.place == one.page.setup.place,
        zero.page.setup.place.page == 1,
        zero.page.setup.url_rule@ == one.page.setup.url_rule@,
        Some(zero.page.setup.url_rule@) == filled_in_or(
            source.rule_review->0.review_detail_url,
            source.rule_review->0.review_url,
        ),
        zero.after_all(answers).counts() == one.after_all(answers).counts(),
        zero.after_all(answers).progress() == one.after_all(answers).progress(),
        zero.after_all(answers).leaves(cache) == one.after_all(answers).leaves(cache),
{
    lemma_same_detail(zero, one, answers);
    let (x, y) = (zero.after_all(answers), one.after_all(answers));
    lemma_same_page(x.page, y.page, AnswerView::Ready);
}

proof fn lemma_same_replies(a: PageState, b: PageState, answers: Seq<AnswerView>)
    requires
        same_page(a, b),
    ensures
        same_page(replies_after_all(a, answers), replies_after_all(b, answers)),
        replies_progress(replies_after_all(a, answers)) == replies_progress(
            replies_after_all(b, answers),
        ),
    decreases answers.len(),
{
    if answers.len() > 0 {
        let front = answers.drop_last();
        lemma_same_replies(a, b, front);
        lemma_same_page(
            replies_after_all(a, front),
            replies_after_all(b, front),
            answers.last(),
        );
    }
    lemma_same_page(
        replies_after_all(a, answers),
        replies_after_all(b, answers),
        AnswerView::Ready,
    );
}

/// Page zero of the replies to a review is page one: given the same answers, runs for the two ask
/// the same and end the same.
pub proof fn law_page_zero_of_replies_is_page_one(
    source: &BookSource,
    book: &Book,
    chapter: &BookChapter,
    para_index: i64,
    para_data: &str,
    review_id: &str,
    zero: PageState,
    one: PageState,
    answers: Seq<AnswerView>,
)
    requires
        replies_refusal(source.rule_review) is None,
        replies_start(zero, source, book, chapter, para_index, para_data, review_id, 0),
        replies_start(one, source, book, chapter, para_index, para_data, review_id, 1),
    ensures
        zero.setup.place == one.setup.place,
        zero.setup.place.page == 1,
        zero.setup.url_rule@ == one.setup.url_rule@,
        replies_progress(replies_after_all(zero, answers)) == replies_progress(
            replies_after_all(one, answers),
        ),
{
    lemma_same_replies(zero, one, answers);
}

/// An address that is found in one place is never used in another: there the address stays what it
/// was, or is the first one again.
pub proof fn law_found_address_stays_in_its_place(
    ns: Seq<char>,
    source: BookSource,
    place: Place,
    before: Map<Seq<char>, Seq<char>>,
    after: Map<Seq<char>, Seq<char>>,
    next: Seq<char>,
    ns2: Seq<char>,
    source2: BookSource,
    rule2: ReviewRule,
    place2: Place,
)
    requires
        key_parts_are_plain(ns, source, place),
        key_parts_are_plain(ns2, source2, place2),
        remembers(before, after, key_at(ns, source, place), next),
        ns != ns2 || source.book_source_url@ != source2.book_source_url@
            || place.book.book_url@ != place2.book.book_url@ || place.chapter.url@
            != place2.chapter.url@ || place.para_index != place2.para_index || place.para_data@
            != place2.para_data@ || place.page != place2.page,
    ensures
        ({
            let url = detail_url_rule(ns2, source2, rule2, place2, after);
            ||| url == detail_url_rule(ns2, source2, rule2, place2, before)
            ||| url == filled_in_or(rule2.review_detail_url, rule2.review_url)->0
        }),
{
    if key_at(ns, source, place) == key_at(ns2, source2, place2) {
        law_key_tells_pages_apart(ns, source, place, ns2, source2, place2);
    }
    law_remembered_address_comes_back(
        before,
        after,
        key_at(ns, source, place),
        next,
        key_at(ns2, source2, place2),
    );
}

/// A page of reviews says that there are more exactly where it gives the address of the next page,
/// and then it has reviews, and the address is not empty.
pub proof fn law_more_reviews_have_an_address(state: DetailState)
    ensures
        state.progress() matches Progress::Done(detail) ==> {
            &&& detail.has_more == (detail.next_page_url is Some)
            &&& detail.next_page_url matches Some(url) ==> url.len() > 0 && detail.items.len() > 0
        },
{
}

/// A page of replies gives no address. It says that there are more only where it has replies, and
/// by the total, where that is told: not on the last page, nor behind it.
pub proof fn law_more_replies_go_by_the_total(
    state: PageState,
    page: PageView,
    items: Seq<ReviewItemView>,
    detail: DetailPageView,
)
    requires
        state.progress() == PageProgress::Read(page, items),
        replies_progress(state) == Progress::Done(detail),
    ensures
        detail.items == items,
        detail.next_page_url is None,
        detail.has_more ==> items.len() > 0,
        total_of(page.body) matches Some(total) ==> detail.has_more == (items.len() > 0
            && state.setup.place.page * limit_in(query_pairs_of(page.url)) < total),
        total_of(page.body) is None ==> detail.has_more == (items.len() >= limit_in(
            query_pairs_of(page.url),
        )),
{
    law_page_limit_is_in_bounds(query_pairs_of(page.url));
}

/// A page is taken to hold at least one reply and at most `PAGE_LIMIT_MAX`.
pub proof fn law_page_limit_is_in_bounds(pairs: Option<Seq<(Seq<char>, Seq<char>)>>)
    ensures
        1 <= limit_in(pairs) <= PAGE_LIMIT_MAX,
{
}

/// Is there anything in the item to be shown?
pub open spec fn says_something(item: ReviewItemView) -> bool {
    item.name is Some || item.content is Some || item.image_url is Some || item.audio_url is Some
}

/// Is the item as an item of its own can be? There is something in it to be shown, and neither its
/// id nor its author's name is blank.
pub open spec fn sound_alone(item: ReviewItemView) -> bool {
    &&& says_something(item)
    &&& legible_text(item.id)
    &&& legible_text(item.name)
    &&& forall|i: int| 0 <= i < item.badges.len() ==> legible_text(Some(#[trigger] item.badges[i]))
}

/// Is the item as a reply can be? It has no replies of its own, and does not count any.
pub open spec fn sound_reply(item: ReviewItemView) -> bool {
    sound_alone(item) && item.reply_count is None && item.replies.len() == 0
}

/// Is the item as one that was read as `reading` says can be?
pub open spec fn sound(reading: ReadingView, item: ReviewItemView) -> bool {
    if reading.is_reply() {
        sound_reply(item)
    } else {
        &&& sound_alone(item)
        &&& reading.nested_rule() is None ==> item.replies.len() == 0
        &&& forall|i: int| 0 <= i < item.replies.len() ==> sound_reply(#[trigger] item.replies[i])
    }
}

/// A field that was found has no white space on either side.
proof fn lemma_field_is_trimmed(
    text: Seq<char>,
    rule: Option<Seq<char>>,
    level: u8,
    answers: Seq<AnswerView>,
)
    ensures
        field_of(text, rule, level, answers) matches Outcome::Done(found, _) ==> trimmed(found)
            == found,
{
    reveal(field_of);
    if let Some(rule) = rule {
        if let Outcome::Done(found, _) = ask_text(
            answers,
            QuestionView::Field { level, rule, text },
        ) {
            law_trimmed_text_stays(found);
        }
    } else {
        assert(trimmed(Seq::<char>::empty()) =~= Seq::empty());
    }
}

/// Neither the id, the name, a badge nor the content that the rules find is blank, and none has
/// white space on either side.
pub proof fn lemma_found_is_legible(reading: ReadingView, item: Seq<char>, answers: Seq<AnswerView>)
    ensures
        found_in(reading, item, answers) matches Outcome::Done(found, _) ==> {
            &&& legible_text(found.id)
            &&& legible_text(found.name)
            &&& trimmed(found.raw_content) == found.raw_content
            &&& forall|i: int|
                0 <= i < found.badges.len() ==> legible_text(Some(#[trigger] found.badges[i]))
        },
{
    reveal(found_in);
    reveal(author_of);
    if let Outcome::Done(found, _) = found_in(reading, item, answers) {
        let level = reading.level();
        let fork = ask_ready(answers, QuestionView::ForkVars { level });
        let author = author_of(reading, item, fork->Done_1);
        let id = field_of(item, reading.id_rule(), level, fork->Done_1);
        let avatar = avatar_of(reading, item, id->Done_1);
        let name = field_of(item, reading.name_rule(), level, avatar->Done_1);
        let badges = field_of(item, reading.badge_rule(), level, author->Done_1);
        law_kept_text_stays(id->Done_0);
        law_kept_text_stays(name->Done_0);
        law_badges_are_texts(badges->Done_0);
        lemma_field_is_trimmed(item, Some(reading.content_rule), level, badges->Done_1);
    }
}

/// An item whose content object, where it has one, can be read is one whose texts can be read.
pub proof fn lemma_completed_is_legible(
    reading: ReadingView,
    item: Seq<char>,
    found: FoundView,
    said: Option<ContentProtocolView>,
    answers: Seq<AnswerView>,
)
    requires
        said matches Some(said) ==> said.legible(),
        legible_text(found.id),
        legible_text(found.name),
        trimmed(found.raw_content) == found.raw_content,
        forall|i: int|
            0 <= i < found.badges.len() ==> legible_text(Some(#[trigger] found.badges[i])),
    ensures
        completed(reading, item, found, said, answers) matches Outcome::Done(Some(single), _)
            ==> legible_alone(single),
{
    reveal(completed);
    let more = match said {
        Some(said) => said,
        None => nothing_said(),
    };
    if let Outcome::Done(_, rest) = resolved(more.image, reading.base_url, answers) {
        if let Outcome::Done(_, rest) = resolved(more.audio, reading.base_url, rest) {
            let rule = reading.rule.post_time_rule.deep_view();
            if let Outcome::Done(time, _) = field_of(item, rule, reading.level(), rest) {
                law_kept_text_stays(time);
            }
        }
    }
}

/// No text of a content object is blank or has white space on either side, where its numbers are
/// written as `serde_json` writes them.
pub proof fn law_content_object_is_legible(
    fields: ContentFieldsView,
    like: Option<i64>,
    reply: Option<i64>,
)
    requires
        fields.consistent(),
    ensures
        protocol_of(fields, like, reply) matches Some(said) ==> said.legible(),
{
    lemma_member_is_legible(fields.text);
    lemma_member_is_legible(fields.reply_to_name);
    lemma_member_is_legible(fields.image);
    lemma_member_is_legible(fields.audio);
    lemma_member_is_legible(fields.time);
}

proof fn lemma_member_is_legible(value: Option<JsonView>)
    requires
        well_written(value),
    ensures
        legible_text(json_text(value)),
{
    reveal_strlit("true");
    reveal_strlit("false");
    if let Some(JsonView::Text(s)) = value {
        law_kept_text_stays(s);
    }
}

proof fn lemma_single_item(reading: ReadingView, item: Seq<char>, answers: Seq<AnswerView>)
    ensures
        single_item(reading, item, answers) matches Outcome::Done(Some(single), _) ==> {
            &&& sound_alone(single)
            &&& single.replies.len() == 0
            &&& reading.is_reply() ==> single.reply_count is None
        },
{
    reveal(single_item);
    reveal(completed);
    lemma_found_is_legible(reading, item, answers);
}

/// Every item that is read has something to be shown. A reply has no replies of its own; a review
/// has replies only where the source has no pages of replies.
pub proof fn law_item_is_sound(reading: ReadingView, item: Seq<char>, answers: Seq<AnswerView>)
    ensures
        read_item(reading, item, answers) matches Outcome::Done(Some(read), _) ==> sound(
            reading,
            read,
        ),
    decreases depth(reading), 0nat,
{
    reveal(read_item);
    lemma_single_item(reading, item, answers);
    if let Outcome::Done(Some(single), rest) = single_item(reading, item, answers) {
        if let Some(rule) = reading.nested_rule() {
            if let Outcome::Done(texts, rest) = nested_texts(reading, rule, item, rest) {
                law_items_are_sound(reading.nested(), texts, Seq::empty(), rest);
            }
        }
    }
}

/// Every item of a list is as it can be, and there are no more of them than texts.
pub proof fn law_items_are_sound(
    reading: ReadingView,
    texts: Seq<Seq<char>>,
    before: Seq<ReviewItemView>,
    answers: Seq<AnswerView>,
)
    requires
        forall|i: int| 0 <= i < before.len() ==> sound(reading, #[trigger] before[i]),
    ensures
        read_items(reading, texts, before, answers) matches Outcome::Done(items, _) ==> {
            &&& items.len() <= before.len() + texts.len()
            &&& forall|i: int| 0 <= i < items.len() ==> sound(reading, #[trigger] items[i])
        },
    decreases depth(reading), texts.len(),
{
    reveal(read_item);
    if texts.len() > 0 {
        law_item_is_sound(reading, texts[0], answers);
        if let Outcome::Done(item, rest) = read_item(reading, texts[0], answers) {
            law_items_are_sound(reading, texts.drop_first(), with_item(before, item), rest);
        }
    }
}

/// Every item of a page is as it can be, and there are no more of them than the page lists.
pub proof fn law_page_items_are_sound(
    state: PageState,
    page: PageView,
    items: Seq<ReviewItemView>,
)
    requires
        state.settled(),
        state.progress() == PageProgress::Read(page, items),
    ensures
        items.len() <= page.texts.len(),
        forall|i: int|
            0 <= i < items.len() ==> sound(state.reading(page), #[trigger] items[i]),
{
    lemma_items_by(state.reading(page), page.texts, state.rows);
}

proof fn lemma_items_by(
    reading: ReadingView,
    texts: Seq<Seq<char>>,
    rows: Seq<Seq<AnswerView>>,
)
    ensures
        items_by(reading, texts, rows).len() <= rows.len(),
        forall|i: int|
            0 <= i < items_by(reading, texts, rows).len() ==> sound(
                reading,
                #[trigger] items_by(reading, texts, rows)[i],
            ),
    decreases rows.len(),
{
    if rows.len() > 0 {
        lemma_items_by(reading, texts, rows.drop_last());
        law_item_is_sound(reading, texts[rows.len() - 1], rows.last());
    }
}

/// Is the entry as an entry can be? Its paragraph is not zero, it has reviews, and its data is not
/// empty.
pub open spec fn sound_entry(entry: EntryView) -> bool {
    entry.paragraph != 0 && entry.count > 0 && entry.key.len() > 0
}

/// Every entry that is read is as it can be.
pub proof fn law_entry_is_sound(
    setup: SummarySetup,
    index: int,
    item: Seq<char>,
    answers: Seq<AnswerView>,
)
    ensures
        read_entry(setup, index, item, answers) matches Outcome::Done(Some(entry), _)
            ==> sound_entry(entry),
{
    reveal(read_entry);
    reveal(counted);
    assert forall|n: int| (#[trigger] decimal(n)).len() > 0 by {
        lemma_decimal(n);
    }
}

/// Does the summary hold what a summary can hold? It counts reviews for the same paragraphs that it
/// has data for; no count is zero or less, no data empty, and there is no paragraph zero.
pub open spec fn sound_summary(summary: SummaryView) -> bool {
    &&& summary.counts.dom() == summary.keys.dom()
    &&& summary.counts.dom().finite()
    &&& !summary.counts.contains_key(0)
    &&& forall|paragraph: i64| #[trigger]
        summary.counts.contains_key(paragraph) ==> summary.counts[paragraph] > 0
            && summary.keys[paragraph].len() > 0
}

proof fn lemma_summary_by(setup: SummarySetup, texts: Seq<Seq<char>>, rows: Seq<Seq<AnswerView>>)
    ensures
        sound_summary(summary_by(setup, texts, rows)),
        summary_by(setup, texts, rows).counts.len() <= rows.len(),
    decreases rows.len(),
{
    let summary = summary_by(setup, texts, rows);
    if rows.len() > 0 {
        let index = rows.len() - 1;
        let before = summary_by(setup, texts, rows.drop_last());
        lemma_summary_by(setup, texts, rows.drop_last());
        law_entry_is_sound(setup, index, texts[index], rows.last());
        if let Some(entry) = entry_result(read_entry(setup, index, texts[index], rows.last())) {
            assert(summary.counts.dom() =~= before.counts.dom().insert(entry.paragraph));
            assert(summary.keys.dom() =~= before.keys.dom().insert(entry.paragraph));
        }
    } else {
        assert(summary.counts.dom() =~= Set::empty());
        assert(summary.keys.dom() =~= Set::empty());
    }
}

/// A summary holds what a summary can hold, whatever the source answers, and counts no more
/// paragraphs than the page lists entries.
pub proof fn law_summary_is_sound(state: SummaryState)
    ensures
        state.progress() matches Progress::Done(summary) ==> sound_summary(summary),
        state.settled() && state.setup is Some && state.progress() is Done ==> {
            &&& state.page() is Done
            &&& state.progress()->Done_0.counts.len() <= state.page()->Done_0.texts.len()
        },
{
    if let Some(setup) = state.setup {
        if let Outcome::Done(page, _) = state.page() {
            lemma_summary_by(setup, page.texts, state.rows);
        }
    } else {
        assert(empty_summary().counts.dom() =~= Set::empty());
        assert(empty_summary().keys.dom() =~= Set::empty());
    }
}

/// Without rules for a summary nothing is asked, nothing can go wrong, and the summary is empty.
pub proof fn law_no_rules_no_summary(answer: AnswerView)
    ensures
        SummaryState::fresh(None).progress() == Progress::Done(empty_summary()),
        SummaryState::fresh(None).after(answer) == SummaryState::fresh(None),
{
}

/// A text in which the pattern's first character does not occur is left as it is.
proof fn lemma_nothing_to_replace(s: Seq<char>, pat: Seq<char>, by: Seq<char>)
    requires
        pat.len() > 0,
        !s.contains(pat[0]),
    ensures
        replaced(s, pat, by) == s,
    decreases s.len(),
{
    if s.len() >= pat.len() {
        assert(s.contains(s[0]));
        if stands_at(s, pat, 0) {
            assert(s.subrange(0, pat.len() as int)[0] == s[0]);
        }
        assert forall|c: char| s.drop_first().contains(c) implies s.contains(c) by {
            let i = choose|i: int| 0 <= i < s.drop_first().len() && s.drop_first()[i] == c;
            assert(s[i + 1] == c);
        }
        lemma_nothing_to_replace(s.drop_first(), pat, by);
        assert(seq![s[0]] + s.drop_first() =~= s);
    }
}

/// A text without braces has no placeholders, and is left as it is.
pub proof fn law_text_without_braces_stays(
    value: Seq<char>,
    para_index: int,
    para_data: Seq<char>,
    review_id: Seq<char>,
    page: int,
)
    requires
        !value.contains('{'),
    ensures
        templated(value, para_index, para_data, review_id, page) == value,
{
    reveal_strlit("{{paraIndex}}");
    reveal_strlit("{paraIndex}");
    reveal_strlit("{{paraData}}");
    reveal_strlit("{paraData}");
    reveal_strlit("{{reviewId}}");
    reveal_strlit("{reviewId}");
    reveal_strlit("{{page}}");
    reveal_strlit("{page}");
    lemma_nothing_to_replace(value, "{{paraIndex}}"@, decimal(para_index));
    lemma_nothing_to_replace(value, "{paraIndex}"@, decimal(para_index));
    lemma_nothing_to_replace(value, "{{paraData}}"@, para_data);
    lemma_nothing_to_replace(value, "{paraData}"@, para_data);
    lemma_nothing_to_replace(value, "{{reviewId}}"@, review_id);
    lemma_nothing_to_replace(value, "{reviewId}"@, review_id);
    lemma_nothing_to_replace(value, "{{page}}"@, decimal(page));
    lemma_nothing_to_replace(value, "{page}"@, decimal(page));
}

/// Do the two texts have no character in common?
spec fn apart(a: Seq<char>, b: Seq<char>) -> bool {
    forall|i: int, j: int| 0 <= i < a.len() && 0 <= j < b.len() ==> #[trigger] a[i] != #[trigger]
        b[j]
}

/// What a text begins with after replacing, it began with before, unless that was brought in.
proof fn lemma_replaced_begins(s: Seq<char>, pat: Seq<char>, by: Seq<char>, part: Seq<char>)
    requires
        pat.len() > 0,
        by.len() > 0,
        apart(by, part),
        stands_at(replaced(s, pat, by), part, 0),
    ensures
        stands_at(s, part, 0),
    decreases s.len(),
{
    let r = replaced(s, pat, by);
    if part.len() == 0 {
        assert(s.subrange(0, 0) =~= part);
    } else if s.len() >= pat.len() {
        assert(r.subrange(0, part.len() as int)[0] == part[0]);
        if stands_at(s, pat, 0) {
            assert(r[0] == by[0]);
        } else {
            let t = replaced(s.drop_first(), pat, by);
            let tail = part.drop_first();
            assert(t.subrange(0, tail.len() as int) =~= tail) by {
                assert forall|i: int| 0 <= i < tail.len() implies t[i] == tail[i] by {
                    assert(r.subrange(0, part.len() as int)[i + 1] == part[i + 1]);
                }
            }
            assert(apart(by, tail)) by {
                assert forall|i: int, j: int| 0 <= i < by.len() && 0 <= j < tail.len() implies
                    #[trigger] by[i] != #[trigger] tail[j] by {
                    assert(tail[j] == part[j + 1]);
                }
            }
            lemma_replaced_begins(s.drop_first(), pat, by, tail);
            assert(s.subrange(0, part.len() as int) =~= part) by {
                assert forall|i: int| 0 <= i < part.len() implies s[i] == part[i] by {
                    if i > 0 {
                        let u = s.drop_first();
                        assert(u.subrange(0, tail.len() as int)[i - 1] == tail[i - 1]);
                    }
                }
            }
        }
    }
}

/// After replacing, the pattern is nowhere, where what was brought in has nothing in common with
/// it.
proof fn lemma_replaced_nowhere(s: Seq<char>, pat: Seq<char>, by: Seq<char>, at: int)
    requires
        pat.len() > 0,
        by.len() > 0,
        apart(by, pat),
    ensures
        !stands_at(replaced(s, pat, by), pat, at),
    decreases s.len(),
{
    let r = replaced(s, pat, by);
    if stands_at(r, pat, at) {
        assert(r.subrange(at, at + pat.len())[0] == pat[0]);
        if s.len() >= pat.len() {
            if stands_at(s, pat, 0) {
                let t = replaced(s.skip(pat.len() as int), pat, by);
                if at < by.len() {
                    assert(r[at] == by[at]);
                } else {
                    lemma_replaced_nowhere(s.skip(pat.len() as int), pat, by, at - by.len());
                    assert(t.subrange(at - by.len(), at - by.len() + pat.len()) =~= r.subrange(
                        at,
                        at + pat.len(),
                    ));
                }
            } else {
                let t = replaced(s.drop_first(), pat, by);
                if at == 0 {
                    lemma_replaced_begins(s, pat, by, pat);
                } else {
                    lemma_replaced_nowhere(s.drop_first(), pat, by, at - 1);
                    assert(t.subrange(at - 1, at - 1 + pat.len()) =~= r.subrange(
                        at,
                        at + pat.len(),
                    ));
                }
            }
        }
    }
}

/// No placeholder for the page is left over, whatever the other placeholders bring in.
pub proof fn law_no_page_placeholder_is_left(
    value: Seq<char>,
    para_index: int,
    para_data: Seq<char>,
    review_id: Seq<char>,
    page: int,
    at: int,
)
    ensures
        !stands_at(templated(value, para_index, para_data, review_id, page), "{page}"@, at),
{
    reveal_strlit("{page}");
    lemma_decimal(page);
    let a = placed(value, "{{paraIndex}}"@, "{paraIndex}"@, decimal(para_index));
    let b = placed(a, "{{paraData}}"@, "{paraData}"@, para_data);
    let c = placed(b, "{{reviewId}}"@, "{reviewId}"@, review_id);
    lemma_replaced_nowhere(
        replaced(c, "{{page}}"@, decimal(page)),
        "{page}"@,
        decimal(page),
        at,
    );
}

/// The pairs with another name are those of the other names.
proof fn lemma_without(pairs: Pairs, name: Seq<char>)
    ensures
        by_name(without(pairs, name)) == by_name(pairs).remove(name),
        forall|i: int|
            0 <= i < without(pairs, name).len() ==> (#[trigger] without(pairs, name)[i]).0 != name
                && pairs.contains(without(pairs, name)[i]),
        distinct_names(pairs) ==> distinct_names(without(pairs, name)),
    decreases pairs.len(),
{
    if pairs.len() > 0 {
        let front = pairs.drop_last();
        let less = without(front, name);
        lemma_without(front, name);
        assert forall|pair: (Seq<char>, Seq<char>)| front.contains(pair) implies pairs.contains(
            pair,
        ) by {
            let i = choose|i: int| 0 <= i < front.len() && front[i] == pair;
            assert(pairs[i] == pair);
        }
        assert(pairs.contains(pairs.last()));
        if pairs.last().0 != name {
            let kept = less.push(pairs.last());
            assert(kept.drop_last() =~= less);
            if distinct_names(pairs) {
                assert forall|i: int, j: int| 0 <= i < j < front.len() implies (
                #[trigger] front[i]).0 != (#[trigger] front[j]).0 by {
                    assert(pairs[i] == front[i] && pairs[j] == front[j]);
                }
                assert forall|i: int, j: int| 0 <= i < j < kept.len() implies (
                #[trigger] kept[i]).0 != (#[trigger] kept[j]).0 by {
                    if j == less.len() {
                        let k = choose|k: int| 0 <= k < front.len() && front[k] == less[i];
                        assert(pairs[k].0 != pairs[pairs.len() - 1].0);
                    }
                }
            }
        } else if distinct_names(pairs) {
            assert forall|i: int, j: int| 0 <= i < j < front.len() implies (
            #[trigger] front[i]).0 != (#[trigger] front[j]).0 by {
                assert(pairs[i] == front[i] && pairs[j] == front[j]);
            }
        }
        assert(by_name(without(pairs, name)) =~= by_name(pairs).remove(name));
    } else {
        assert(by_name(pairs).remove(name) =~= by_name(pairs));
    }
}

/// The headers of a request are those of the bridge and those among the address's options; where
/// both have one, that of the options counts. No header comes twice.
pub proof fn law_options_headers_come_first(base: Pairs, extra: Pairs)
    ensures
        by_name(extended(base, extra)) == by_name(base).union_prefer_right(by_name(extra)),
        distinct_names(base) ==> distinct_names(extended(base, extra)),
    decreases extra.len(),
{
    if extra.len() > 0 {
        let before = extended(base, extra.drop_last());
        let last = extra.last();
        let less = without(before, last.0);
        law_options_headers_come_first(base, extra.drop_last());
        lemma_without(before, last.0);
        assert(less.push(last).drop_last() =~= less);
        if distinct_names(before) {
            let all = less.push(last);
            assert forall|i: int, j: int| 0 <= i < j < all.len() implies (#[trigger] all[i]).0 != (
            #[trigger] all[j]).0 by {
                if j == less.len() {
                    assert(less[i].0 != last.0);
                }
            }
        }
    }
    assert(by_name(extended(base, extra)) =~= by_name(base).union_prefer_right(by_name(extra)));
}

/// A number that is written down has no white space on either side.
proof fn lemma_decimal_is_trimmed(n: int)
    ensures
        trimmed(decimal(n)) == decimal(n),
{
    lemma_decimal(n);
    assert(is_digit(decimal(n)[0]) || decimal(n)[0] == '-');
    let last = decimal(n).len() - 1;
    assert(is_digit(decimal(n)[last]) || decimal(n)[last] == '-');
}

/// An integer counts the same in a content object whether it stands there as a number or as a text.
pub proof fn law_number_and_text_count_the_same(n: JsonNumberView, float: Option<i64>)
    requires
        n.consistent(),
        n.int is Some,
    ensures
        json_number(Some(JsonView::Number(n)), float) == n.int,
        json_number(Some(JsonView::Text(n.text)), float) == n.int,
        json_text(Some(JsonView::Number(n))) == json_text(Some(JsonView::Text(n.text))),
{
    let i = n.int->0;
    lemma_decimal_is_trimmed(i as int);
    lemma_decimal(i as int);
    law_number_is_read_as_written(i);
}

/// A total that is an integer counts as itself, or as zero where it is negative.
pub proof fn law_total_is_not_negative(n: JsonNumberView)
    requires
        n.consistent(),
    ensures
        n.int matches Some(i) ==> count_in(Some(JsonView::Number(n))) == Some(
            if i < 0 {
                0u64
            } else {
                i as u64
            },
        ),
        n.uint matches Some(u) ==> count_in(Some(JsonView::Number(n))) == Some(u),
{
}

/// A content that is no object, or an object that says nothing, is shown as it is.
pub proof fn law_unknown_content_is_shown_as_it_is(
    raw: Seq<char>,
    like: Option<i64>,
    reply: Option<i64>,
)
    requires
        raw.len() > 0,
        content_protocol(raw, like, reply) is None,
    ensures
        content_of(content_protocol(raw, like, reply), raw) == Some(raw),
{
}

} // verus!
