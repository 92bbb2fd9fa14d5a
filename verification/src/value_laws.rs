//! What the texts, numbers and named values of the library are.

use crate::badge_laws::{gaps_part, in_a_row, is_badge, lemma_row_keeps};
use crate::content::{
    badges_of, content_protocol, float_text, json_number, json_text, kept, number_in, some_text,
};
use crate::detail::DetailState;
use crate::dialog::{fits, AnswerView, QuestionView};
use crate::fetch::{by_name, Pairs};
use crate::item_laws::is_set;
use crate::json::{json_object_of, json_texts_of, JsonNumberView, JsonView};
use crate::laws::law_trimmed_text_stays;
use crate::model::Place;
use crate::next_urls::{remembered, remembers};
use crate::paging::{count_in, limit_in, total_in, total_of};
use crate::text::{
    decimal, digits_value, i64_of, is_blank, is_digit, is_white, lowered, replaced, stands_at,
    trimmed, trimmed_end, trimmed_start, u32_of,
};
use crate::vars::rule_vars;
use vstd::prelude::*;

verus! {

proof fn lemma_start_parts(s: Seq<char>) -> (n: int)
    ensures
        0 <= n <= s.len(),
        trimmed_start(s) == s.skip(n),
        forall|i: int| 0 <= i < n ==> is_white(#[trigger] s[i]),
    decreases s.len(),
{
    if s.len() > 0 && is_white(s[0]) {
        let t = s.drop_first();
        let n = lemma_start_parts(t);
        assert(t.skip(n) =~= s.skip(n + 1));
        assert forall|i: int| 0 <= i < n + 1 implies is_white(#[trigger] s[i]) by {
            if i > 0 {
                assert(s[i] == t[i - 1]);
            }
        }
        n + 1
    } else {
        assert(s.skip(0) =~= s);
        0
    }
}

proof fn lemma_end_parts(s: Seq<char>) -> (n: int)
    ensures
        0 <= n <= s.len(),
        trimmed_end(s) == s.take(n),
        forall|i: int| n <= i < s.len() ==> is_white(#[trigger] s[i]),
    decreases s.len(),
{
    if s.len() > 0 && is_white(s.last()) {
        let t = s.drop_last();
        let n = lemma_end_parts(t);
        assert(t.take(n) =~= s.take(n));
        assert forall|i: int| n <= i < s.len() implies is_white(#[trigger] s[i]) by {
            if i < t.len() {
                assert(s[i] == t[i]);
            }
        }
        n
    } else {
        assert(s.take(s.len() as int) =~= s);
        s.len() as int
    }
}

/// Trimming takes off white space on either side, all of it, and nothing else.
pub proof fn law_trimming_takes_white_space_off(s: Seq<char>) -> (parts: (Seq<char>, Seq<char>))
    ensures
        s == parts.0 + trimmed(s) + parts.1,
        forall|i: int| 0 <= i < parts.0.len() ==> is_white(#[trigger] parts.0[i]),
        forall|i: int| 0 <= i < parts.1.len() ==> is_white(#[trigger] parts.1[i]),
        trimmed(s).len() > 0 ==> !is_white(trimmed(s)[0]) && !is_white(trimmed(s).last()),
{
    let n = lemma_start_parts(s);
    let t = trimmed_start(s);
    let m = lemma_end_parts(t);
    law_trimmed_text_stays(s);
    let (front, back) = (s.take(n), t.skip(m));
    assert(s =~= front + trimmed(s) + back);
    assert forall|i: int| 0 <= i < back.len() implies is_white(#[trigger] back[i]) by {
        assert(back[i] == t[m + i]);
    }
    (front, back)
}

/// A text is blank exactly where it is nothing but white space. A text is kept, trimmed, exactly
/// where it is not blank.
pub proof fn law_blank_is_nothing_but_white_space(s: Seq<char>)
    ensures
        is_blank(s) <==> forall|i: int| 0 <= i < s.len() ==> is_white(#[trigger] s[i]),
        some_text(s) is None <==> forall|i: int| 0 <= i < s.len() ==> is_white(#[trigger] s[i]),
        some_text(s) matches Some(text) ==> text == trimmed(s),
{
    let (front, back) = law_trimming_takes_white_space_off(s);
    let middle = trimmed(s);
    if middle.len() == 0 {
        assert(s =~= front + back);
        assert forall|i: int| 0 <= i < s.len() implies is_white(#[trigger] s[i]) by {
            if i < front.len() {
                assert(s[i] == front[i]);
            } else {
                assert(s[i] == back[i - front.len()]);
            }
        }
    } else {
        assert(s[front.len() as int] == middle[0]);
    }
}

/// Lower case: each ASCII letter in upper case becomes the one in lower case, every other character
/// stays.
pub proof fn law_lower_case_is_by_letter(s: Seq<char>, i: int)
    requires
        0 <= i < s.len(),
    ensures
        lowered(s).len() == s.len(),
        'A' <= s[i] <= 'Z' ==> lowered(s)[i] as int == s[i] as int + 32,
        !('A' <= s[i] <= 'Z') ==> lowered(s)[i] == s[i],
{
}

/// A pattern stands where the text is made of what is before it, the pattern, and what is behind
/// it, and nowhere else.
pub proof fn law_standing_is_being_a_part(s: Seq<char>, pat: Seq<char>, at: int)
    ensures
        stands_at(s, pat, at) <==> 0 <= at && at + pat.len() <= s.len() && s == s.take(at) + pat
            + s.skip(at + pat.len()),
{
    if stands_at(s, pat, at) {
        assert(s =~= s.take(at) + s.subrange(at, at + pat.len()) + s.skip(at + pat.len()));
    } else if 0 <= at && at + pat.len() <= s.len() && s == s.take(at) + pat + s.skip(
        at + pat.len(),
    ) {
        assert((s.take(at) + pat + s.skip(at + pat.len())).subrange(at, at + pat.len()) =~= pat);
    }
}

/// Replacing: the first place where the pattern stands is replaced, the text before it stays, and
/// the text behind it is gone through in the same way.
pub proof fn law_replacing_goes_from_left_to_right(
    before: Seq<char>,
    pat: Seq<char>,
    behind: Seq<char>,
    by: Seq<char>,
)
    requires
        pat.len() > 0,
        forall|i: int|
            0 <= i < before.len() ==> !#[trigger] stands_at(before + pat + behind, pat, i),
    ensures
        replaced(before + pat + behind, pat, by) == before + by + replaced(behind, pat, by),
    decreases before.len(),
{
    let s = before + pat + behind;
    if before.len() == 0 {
        assert(s.subrange(0, pat.len() as int) =~= pat);
        assert(s.skip(pat.len() as int) =~= behind);
        assert(before + by =~= by);
    } else {
        let b = before.drop_first();
        let t = s.drop_first();
        assert(t =~= b + pat + behind);
        assert forall|i: int| 0 <= i < b.len() implies !#[trigger] stands_at(
            b + pat + behind,
            pat,
            i,
        ) by {
            assert(!stands_at(s, pat, i + 1));
            if stands_at(t, pat, i) {
                assert(s.subrange(i + 1, i + 1 + pat.len()) =~= t.subrange(i, i + pat.len()));
            }
        }
        law_replacing_goes_from_left_to_right(b, pat, behind, by);
        assert(!stands_at(s, pat, 0));
        assert(seq![s[0]] + (b + by + replaced(behind, pat, by)) =~= before + by + replaced(
            behind,
            pat,
            by,
        ));
    }
}

/// A text in which the pattern stands nowhere stays as it is.
pub proof fn law_nothing_is_replaced_where_nothing_stands(
    s: Seq<char>,
    pat: Seq<char>,
    by: Seq<char>,
)
    requires
        forall|i: int| !#[trigger] stands_at(s, pat, i),
    ensures
        replaced(s, pat, by) == s,
    decreases s.len(),
{
    if pat.len() > 0 && s.len() >= pat.len() {
        let t = s.drop_first();
        assert(!stands_at(s, pat, 0));
        assert forall|i: int| !#[trigger] stands_at(t, pat, i) by {
            if stands_at(t, pat, i) {
                assert(s.subrange(i + 1, i + 1 + pat.len()) =~= t.subrange(i, i + pat.len()));
                assert(stands_at(s, pat, i + 1));
            }
        }
        law_nothing_is_replaced_where_nothing_stands(t, pat, by);
        assert(seq![s[0]] + t =~= s);
    }
}

/// A number in decimal: one digit for each of its digits, the last last, no zero in front, and a
/// minus sign before a negative one.
pub proof fn law_decimal_is_digit_by_digit(n: int)
    ensures
        0 <= n < 10 ==> decimal(n).len() == 1 && decimal(n)[0] as int == '0' as int + n,
        n >= 10 ==> decimal(n).drop_last() == decimal(n / 10) && decimal(n).last() as int
            == '0' as int + n % 10,
        n < 0 ==> decimal(n) == seq!['-'] + decimal(-n),
{
    if n >= 10 {
        assert(decimal(n).drop_last() =~= decimal(n / 10));
    }
}

/// A row of digits stands for its number: a digit more is ten times as much and the digit.
pub proof fn law_digits_stand_for_their_number(s: Seq<char>, c: char)
    ensures
        digits_value(Seq::empty()) == 0,
        digits_value(s.push(c)) == digits_value(s) * 10 + (c as int - '0' as int),
{
    assert(s.push(c).drop_last() =~= s);
}

/// Is the text a row of one or more digits?
pub open spec fn all_digits(s: Seq<char>) -> bool {
    s.len() > 0 && forall|i: int| 0 <= i < s.len() ==> '0' <= #[trigger] s[i] <= '9'
}

/// A text is an integer exactly where it is a row of digits, after a sign or none, that is in
/// range: its number, negative behind a minus sign.
pub proof fn law_integers_are_signed_digits(s: Seq<char>)
    ensures
        all_digits(s) ==> i64_of(s) == (if digits_value(s) <= i64::MAX {
            Some(digits_value(s) as i64)
        } else {
            None
        }),
        all_digits(s) ==> i64_of(seq!['+'] + s) == i64_of(s),
        all_digits(s) ==> i64_of(seq!['-'] + s) == (if digits_value(s) <= i64::MAX + 1 {
            Some((-digits_value(s)) as i64)
        } else {
            None
        }),
        all_digits(s) ==> u32_of(s) == (if digits_value(s) <= u32::MAX {
            Some(digits_value(s) as u32)
        } else {
            None
        }),
        all_digits(s) ==> u32_of(seq!['+'] + s) == u32_of(s),
        !all_digits(s) && !(s.len() > 0 && (s[0] == '+' || s[0] == '-') && all_digits(
            s.drop_first(),
        )) ==> i64_of(s) is None,
        !all_digits(s) && !(s.len() > 0 && s[0] == '+' && all_digits(s.drop_first())) ==> u32_of(
            s,
        ) is None,
{
    lemma_digits_are_not_negative(s);
    assert((seq!['+'] + s).drop_first() =~= s);
    assert((seq!['-'] + s).drop_first() =~= s);
    if all_digits(s) {
        assert('0' <= s[0] <= '9');
        assert forall|i: int| 0 <= i < s.len() implies is_digit(#[trigger] s[i]) by {
            assert('0' <= s[i] <= '9');
        }
    } else if s.len() > 0 {
        let bad = choose|i: int| 0 <= i < s.len() && !('0' <= #[trigger] s[i] <= '9');
        assert(!is_digit(s[bad]));
        let t = s.drop_first();
        if !all_digits(t) && t.len() > 0 {
            let worse = choose|i: int| 0 <= i < t.len() && !('0' <= #[trigger] t[i] <= '9');
            assert(!is_digit(t[worse]));
        }
    }
}

proof fn lemma_digits_are_not_negative(s: Seq<char>)
    ensures
        all_digits(s) ==> digits_value(s) >= 0,
    decreases s.len(),
{
    if all_digits(s) && s.len() > 1 {
        let t = s.drop_last();
        assert forall|i: int| 0 <= i < t.len() implies '0' <= #[trigger] t[i] <= '9' by {
            assert(t[i] == s[i]);
        }
        lemma_digits_are_not_negative(t);
        assert('0' <= s[s.len() - 1] <= '9');
    } else if all_digits(s) {
        assert(s.drop_last() =~= Seq::empty());
        assert(digits_value(s.drop_last()) == 0);
        assert('0' <= s[s.len() - 1] <= '9');
    }
}

/// Where a name comes more than once, the last value counts; a name that does not come has none.
pub proof fn law_last_value_of_a_name_counts(pairs: Pairs, name: Seq<char>, at: int)
    ensures
        0 <= at < pairs.len() && pairs[at].0 == name && (forall|i: int|
            at < i < pairs.len() ==> (#[trigger] pairs[i]).0 != name) ==> by_name(
            pairs,
        ).dom().contains(name) && by_name(pairs)[name] == pairs[at].1,
        (forall|i: int| 0 <= i < pairs.len() ==> (#[trigger] pairs[i]).0 != name) ==> !by_name(
            pairs,
        ).dom().contains(name),
    decreases pairs.len(),
{
    if pairs.len() > 0 {
        let front = pairs.drop_last();
        law_last_value_of_a_name_counts(front, name, at);
        assert(forall|i: int| 0 <= i < front.len() ==> #[trigger] front[i] == pairs[i]);
        assert(pairs.last() == pairs[pairs.len() - 1]);
    }
}

/// The variables at a place: these eight names and no other, and the context of book and chapter.
pub proof fn law_variables_tell_the_place(place: Place, result: Seq<char>)
    ensures
        ({
            let vars = by_name(rule_vars(place, result).entries);
            &&& vars.dom() == set![
                "result"@, "src"@, "baseUrl"@, "page"@, "paraIndex"@, "paraData"@, "key"@,
                "reviewId"@,
            ]
            &&& vars["result"@] == result
            &&& vars["src"@] == result
            &&& vars["baseUrl"@] == place.chapter.url@
            &&& vars["page"@] == decimal(place.page as int)
            &&& vars["paraIndex"@] == decimal(place.para_index as int)
            &&& vars["paraData"@] == place.para_data@
            &&& vars["key"@] == place.para_data@
            &&& match place.review_id {
                Some(id) => vars["reviewId"@] == id@,
                None => vars["reviewId"@].len() == 0,
            }
        }),
        rule_vars(place, result).context.chapter_title == place.chapter.title@,
        rule_vars(place, result).context.chapter_url == place.chapter.url@,
        rule_vars(place, result).context.chapter_index == decimal(place.chapter.index as int),
        rule_vars(place, result).context.book_name == place.book.name@,
        rule_vars(place, result).context.book_author == place.book.author@,
        rule_vars(place, result).context.book_url == place.book.book_url@,
{
    reveal_strlit("result");
    reveal_strlit("src");
    reveal_strlit("baseUrl");
    reveal_strlit("page");
    reveal_strlit("paraIndex");
    reveal_strlit("paraData");
    reveal_strlit("key");
    reveal_strlit("reviewId");
    let entries = rule_vars(place, result).entries;
    let vars = by_name(entries);
    assert("result"@.len() == 6 && "src"@.len() == 3 && "baseUrl"@.len() == 7 && "page"@.len() == 4
        && "paraIndex"@.len() == 9 && "paraData"@.len() == 8 && "key"@.len() == 3
        && "reviewId"@.len() == 8);
    assert("src"@[0] != "key"@[0]);
    assert("paraData"@[0] != "reviewId"@[0]);
    law_last_value_of_a_name_counts(entries, "result"@, 0);
    law_last_value_of_a_name_counts(entries, "baseUrl"@, 1);
    law_last_value_of_a_name_counts(entries, "page"@, 2);
    law_last_value_of_a_name_counts(entries, "paraIndex"@, 3);
    law_last_value_of_a_name_counts(entries, "paraData"@, 4);
    law_last_value_of_a_name_counts(entries, "reviewId"@, 5);
    law_last_value_of_a_name_counts(entries, "key"@, 6);
    law_last_value_of_a_name_counts(entries, "src"@, 7);
    assert forall|name: Seq<char>| #[trigger] vars.dom().contains(name) implies set![
        "result"@, "src"@, "baseUrl"@, "page"@, "paraIndex"@, "paraData"@, "key"@, "reviewId"@,
    ].contains(name) by {
        law_last_value_of_a_name_counts(entries, name, 0);
    }
    assert(vars.dom() =~= set![
        "result"@, "src"@, "baseUrl"@, "page"@, "paraIndex"@, "paraData"@, "key"@, "reviewId"@,
    ]);
}

/// Of the keys that were remembered, at most one is forgotten when another address is put in.
pub proof fn law_at_most_one_address_is_forgotten(
    before: Map<Seq<char>, Seq<char>>,
    after: Map<Seq<char>, Seq<char>>,
    key: Seq<char>,
    url: Seq<char>,
    a: Seq<char>,
    b: Seq<char>,
)
    requires
        remembers(before, after, key, url),
        a != b,
        a != key,
        b != key,
        before.dom().contains(a),
        before.dom().contains(b),
    ensures
        after.dom().contains(a) && after[a] == before[a] || after.dom().contains(b) && after[b]
            == before[b],
        remembered(before, a) == Some(before[a]),
        forall|c: Seq<char>| !before.dom().contains(c) ==> #[trigger] remembered(before, c) is None,
{
}

/// The limit of a page: the first value in its address with the name `limit`, in upper or lower
/// case, where that is a number from one to fifty. A larger one counts as fifty; a zero, something
/// else, or none at all counts as twenty.
pub proof fn law_limit_is_the_first_in_the_address(
    before: Seq<(Seq<char>, Seq<char>)>,
    name: Seq<char>,
    value: Seq<char>,
    behind: Seq<(Seq<char>, Seq<char>)>,
)
    requires
        forall|i: int| 0 <= i < before.len() ==> lowered((#[trigger] before[i]).0) != "limit"@,
    ensures
        lowered(name) == "limit"@ ==> limit_in(Some(before + seq![(name, value)] + behind)) == (
        match u32_of(value) {
            Some(n) => if 1 <= n <= 50 {
                n
            } else if n > 50 {
                50
            } else {
                20
            },
            None => 20,
        }),
        limit_in(Some(before)) == 20,
        limit_in(None) == 20,
    decreases before.len(),
{
    reveal_strlit("limit");
    assert(lowered("limit"@) =~= "limit"@);
    let all = before + seq![(name, value)] + behind;
    if before.len() == 0 {
        assert(all[0] == (name, value));
    } else {
        let rest = before.drop_first();
        assert forall|i: int| 0 <= i < rest.len() implies lowered((#[trigger] rest[i]).0)
            != "limit"@ by {
            assert(rest[i] == before[i + 1]);
        }
        law_limit_is_the_first_in_the_address(rest, name, value, behind);
        assert(lowered(before[0].0) != "limit"@);
        assert(all[0] == before[0]);
        assert(all.drop_first() =~= rest + seq![(name, value)] + behind);
    }
}

/// The total of a response: the member `total` of the object `data`, where there is a member
/// `data`; else the object's own. Only an integer is a total, and a negative one counts as zero.
pub proof fn law_total_is_told_by_the_object(
    body: Seq<char>,
    members: Map<Seq<char>, JsonView>,
    data: Map<Seq<char>, JsonView>,
)
    ensures
        json_object_of(body) == Some(members) ==> total_of(body) == total_in(members),
        json_object_of(body) is None ==> total_of(body) is None,
        !members.dom().contains("data"@) && members.dom().contains("total"@) ==> total_in(members)
            == count_in(Some(members["total"@])),
        !members.dom().contains("data"@) && !members.dom().contains("total"@) ==> total_in(members)
            is None,
        members.dom().contains("data"@) && members["data"@] == JsonView::Object(data) ==> total_in(
            members,
        ) == (if data.dom().contains("total"@) {
            count_in(Some(data["total"@]))
        } else {
            None
        }),
        members.dom().contains("data"@) && !(members["data"@] is Object) ==> total_in(members)
            is None,
        forall|value: JsonView| !(value is Number) ==> #[trigger] count_in(Some(value)) is None,
        forall|value: JsonView|
            value is Number && value->Number_0.int is None && value->Number_0.uint is None
                ==> #[trigger] count_in(Some(value)) is None,
{
}

/// Only a script or a request can fail.
pub proof fn law_only_scripts_and_requests_fail(question: QuestionView)
    ensures
        fits(question, AnswerView::Failed) <==> question is EvalScript || question is Get
            || question is Post,
{
}

/// What each question calls for: a script, a rule for one text and an address to be made absolute a
/// text; a rule for parts of a text a list of texts, as long as a list in memory can be; a text
/// that may be a number that number or none; an address with options the two; the bridge's headers
/// pairs; a request a response; and everything else that it is done.
pub proof fn law_each_question_calls_for_its_answer(
    question: QuestionView,
    answer: AnswerView,
)
    ensures
        answer is Text ==> (fits(question, answer) <==> question is EvalScript || question is Field
            || question is Resolve),
        answer is Texts && answer->Texts_0.len() < i64::MAX ==> (fits(question, answer)
            <==> question is Elements),
        answer is Number ==> (fits(question, answer) <==> question is ReadFloat),
        answer is Split ==> (fits(question, answer) <==> question is SplitSuffix),
        answer is Pairs ==> (fits(question, answer) <==> question is BridgeHeaders),
        answer is Response ==> (fits(question, answer) <==> question is Get || question is Post),
        answer is Ready ==> (fits(question, answer) <==> question is OpenBridge || question
            is SetHeaders || question is AcquireRate || question is AssignVars || question
            is ForkVars),
{
}

/// A run for reviews can go on whatever the page, unless it is the last page number and the rule
/// looks for the page behind it.
pub proof fn law_run_can_go_on(state: DetailState)
    ensures
        state.page.setup.place.page < u32::MAX ==> state.counts(),
        !is_set(state.page.setup.rule.review_detail_next_page_url) ==> state.counts(),
        !(state.page.progress() is Read) ==> state.counts(),
{
}

/// What is kept of texts: of two rows what is kept of each, and of one text what is left when it is
/// trimmed, where anything is.
pub proof fn law_texts_are_kept_one_by_one(
    a: Seq<Seq<char>>,
    b: Seq<Seq<char>>,
    text: Seq<char>,
)
    ensures
        kept(a + b) == kept(a) + kept(b),
        kept(seq![text]) == (if is_blank(text) {
            Seq::empty()
        } else {
            seq![trimmed(text)]
        }),
    decreases b.len(),
{
    assert(seq![text].drop_last() =~= Seq::empty());
    assert(kept(Seq::empty()) =~= Seq::empty());
    if !is_blank(text) {
        assert(Seq::empty().push(trimmed(text)) =~= seq![trimmed(text)]);
    }
    if b.len() == 0 {
        assert(a + b =~= a);
        assert(kept(b) =~= Seq::empty());
        assert(kept(a) + kept(b) =~= kept(a));
    } else {
        law_texts_are_kept_one_by_one(a, b.drop_last(), text);
        assert((a + b).drop_last() =~= a + b.drop_last());
        assert((a + b).last() == b.last());
        if let Some(last) = some_text(b.last()) {
            assert((kept(a) + kept(b.drop_last())).push(last) =~= kept(a) + kept(
                b.drop_last(),
            ).push(last));
        }
    }
}

/// Badges that are written as a list, in square brackets, are the texts of the list, as far as
/// anything is left of them.
pub proof fn law_listed_badges_are_those_of_the_list(value: Seq<char>, list: Seq<Seq<char>>)
    requires
        trimmed(value).len() > 0,
        trimmed(value)[0] == '[',
        trimmed(value).last() == ']',
        json_texts_of(trimmed(value)) == Some(list),
    ensures
        badges_of(value) == kept(list),
{
}

/// Texts that are written in a row come back as they were also where the row begins like a list but
/// is none.
pub proof fn law_badges_in_a_row_that_is_no_list_come_back(
    texts: Seq<Seq<char>>,
    gaps: Seq<Seq<char>>,
)
    requires
        gaps_part(texts, gaps),
        forall|i: int| 0 <= i < texts.len() ==> is_badge(#[trigger] texts[i]),
        json_texts_of(trimmed(in_a_row(texts, gaps))) is None,
    ensures
        badges_of(in_a_row(texts, gaps)) == texts,
{
    lemma_row_keeps(texts, gaps);
}

/// The text that a member of an object is: a text that is not blank, trimmed; a number as it is
/// written; a truth value by its name; nothing else.
pub proof fn law_text_of_a_member(s: Seq<char>, n: JsonNumberView, m: Map<Seq<char>, JsonView>)
    ensures
        is_blank(s) ==> json_text(Some(JsonView::Text(s))) is None,
        !is_blank(s) ==> json_text(Some(JsonView::Text(s))) == Some(trimmed(s)),
        json_text(Some(JsonView::Number(n))) == Some(n.text),
        json_text(Some(JsonView::Bool(true))) == Some("true"@),
        json_text(Some(JsonView::Bool(false))) == Some("false"@),
        json_text(Some(JsonView::Null)) is None,
        json_text(Some(JsonView::Array)) is None,
        json_text(Some(JsonView::Object(m))) is None,
        json_text(None) is None,
{
}

/// The number that a member of an object is: an integer, as a number or as a text; else what it is
/// as a floating-point number, which is asked for exactly then; nothing else is a number.
pub proof fn law_number_of_a_member(
    s: Seq<char>,
    n: JsonNumberView,
    m: Map<Seq<char>, JsonView>,
    b: bool,
    float: Option<i64>,
)
    ensures
        n.int is Some ==> json_number(Some(JsonView::Number(n)), float) == n.int && float_text(
            Some(JsonView::Number(n)),
        ) is None,
        n.int is None ==> json_number(Some(JsonView::Number(n)), float) == float && float_text(
            Some(JsonView::Number(n)),
        ) == Some(n.text),
        i64_of(trimmed(s)) is Some ==> json_number(Some(JsonView::Text(s)), float) == i64_of(
            trimmed(s),
        ) && float_text(Some(JsonView::Text(s))) is None,
        i64_of(trimmed(s)) is None ==> json_number(Some(JsonView::Text(s)), float) == float
            && float_text(Some(JsonView::Text(s))) == Some(trimmed(s)),
        json_number(Some(JsonView::Bool(b)), float) is None,
        json_number(Some(JsonView::Null), float) is None,
        json_number(Some(JsonView::Array), float) is None,
        json_number(Some(JsonView::Object(m)), float) is None,
        json_number(None, float) is None,
        number_in(s, float) == (if i64_of(trimmed(s)) is Some {
            i64_of(trimmed(s))
        } else {
            float
        }),
{
}

/// What a content says as an object, where it is one: what its members of these names say; nothing
/// where they all say nothing. A content that is no object says nothing as one.
pub proof fn law_content_object_says_what_its_members_say(
    raw: Seq<char>,
    members: Map<Seq<char>, JsonView>,
    like: Option<i64>,
    reply: Option<i64>,
)
    ensures
        json_object_of(trimmed(raw)) is None ==> content_protocol(raw, like, reply) is None,
        json_object_of(trimmed(raw)) == Some(members) ==> (content_protocol(
            raw,
            like,
            reply,
        ) matches Some(said) ==> {
            &&& said.text == json_text(
                if members.dom().contains("text"@) {
                    Some(members["text"@])
                } else {
                    None
                },
            )
            &&& said.reply_to_name == json_text(
                if members.dom().contains("replyToName"@) {
                    Some(members["replyToName"@])
                } else {
                    None
                },
            )
            &&& said.image == json_text(
                if members.dom().contains("img"@) {
                    Some(members["img"@])
                } else {
                    None
                },
            )
            &&& said.audio == json_text(
                if members.dom().contains("audio"@) {
                    Some(members["audio"@])
                } else {
                    None
                },
            )
            &&& said.time == json_text(
                if members.dom().contains("time"@) {
                    Some(members["time"@])
                } else {
                    None
                },
            )
            &&& said.like_count == json_number(
                if members.dom().contains("likeCount"@) {
                    Some(members["likeCount"@])
                } else {
                    None
                },
                like,
            )
            &&& said.reply_count == json_number(
                if members.dom().contains("replyCount"@) {
                    Some(members["replyCount"@])
                } else {
                    None
                },
                reply,
            )
        }),
        json_object_of(trimmed(raw)) == Some(members) && content_protocol(raw, like, reply)
            is None ==> {
            &&& json_text(
                if members.dom().contains("text"@) {
                    Some(members["text"@])
                } else {
                    None
                },
            ) is None
            &&& json_text(
                if members.dom().contains("replyToName"@) {
                    Some(members["replyToName"@])
                } else {
                    None
                },
            ) is None
            &&& json_text(
                if members.dom().contains("img"@) {
                    Some(members["img"@])
                } else {
                    None
                },
            ) is None
            &&& json_text(
                if members.dom().contains("audio"@) {
                    Some(members["audio"@])
                } else {
                    None
                },
            ) is None
            &&& json_text(
                if members.dom().contains("time"@) {
                    Some(members["time"@])
                } else {
                    None
                },
            ) is None
            &&& json_number(
                if members.dom().contains("likeCount"@) {
                    Some(members["likeCount"@])
                } else {
                    None
                },
                like,
            ) is None
            &&& json_number(
                if members.dom().contains("replyCount"@) {
                    Some(members["replyCount"@])
                } else {
                    None
                },
                reply,
            ) is None
        },
{
}

} // verus!
