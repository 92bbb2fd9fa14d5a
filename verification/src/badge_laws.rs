//! Badges that are written in a row come back as they were.

use crate::content::{badges_of, is_separator, kept, pieces, some_text};
use crate::laws::{law_trimmed_text_stays, lemma_trimmed_end};
use crate::text::{is_white, trimmed, trimmed_end, trimmed_start};
use vstd::prelude::*;

verus! {

/// Is the text nothing but white space and separators: line breaks, bars and commas?
pub open spec fn is_filler(s: Seq<char>) -> bool {
    forall|i: int|
        0 <= i < s.len() ==> is_white(#[trigger] s[i]) || s[i] == '\n' || s[i] == '|' || s[i]
            == ','
}

/// Is the text nothing but separators and white space, with at least one separator?
pub open spec fn is_parting(s: Seq<char>) -> bool {
    &&& is_filler(s)
    &&& exists|i: int|
        0 <= i < s.len() && (#[trigger] s[i] == '\n' || s[i] == '|' || s[i] == ',')
}

/// Can the text be a badge that is written in a row? It is not blank, has no white space on either
/// side, and holds no line break, bar or comma.
pub open spec fn is_badge(text: Seq<char>) -> bool {
    &&& some_text(text) == Some(text)
    &&& forall|i: int|
        0 <= i < text.len() ==> #[trigger] text[i] != '\n' && text[i] != '|' && text[i] != ','
}

/// The texts in a row, with the gaps before, between and behind them.
pub open spec fn in_a_row(texts: Seq<Seq<char>>, gaps: Seq<Seq<char>>) -> Seq<char>
    decreases texts.len(),
{
    if texts.len() == 0 {
        gaps[0]
    } else {
        in_a_row(texts.drop_last(), gaps.drop_last()) + texts.last() + gaps.last()
    }
}

/// Is the text nothing but white space?
spec fn all_white(s: Seq<char>) -> bool {
    forall|i: int| 0 <= i < s.len() ==> is_white(#[trigger] s[i])
}

/// White space in front makes no difference.
proof fn lemma_white_in_front(w: Seq<char>, s: Seq<char>)
    requires
        all_white(w),
    ensures
        trimmed(w + s) == trimmed(s),
    decreases w.len(),
{
    if w.len() > 0 {
        assert((w + s)[0] == w[0]);
        assert((w + s).drop_first() =~= w.drop_first() + s);
        assert forall|i: int| 0 <= i < w.drop_first().len() implies is_white(
            #[trigger] w.drop_first()[i],
        ) by {
            assert(w.drop_first()[i] == w[i + 1]);
        }
        lemma_white_in_front(w.drop_first(), s);
    } else {
        assert(w + s =~= s);
    }
}

proof fn lemma_start_push(s: Seq<char>, c: char)
    requires
        is_white(c),
    ensures
        trimmed_start(s.push(c)) == if trimmed_start(s).len() == 0 {
            Seq::empty()
        } else {
            trimmed_start(s).push(c)
        },
    decreases s.len(),
{
    let longer = s.push(c);
    if s.len() == 0 {
        assert(longer.drop_first() =~= Seq::empty());
        assert(trimmed_start(longer.drop_first()) =~= Seq::empty());
    } else if is_white(s[0]) {
        assert(longer.drop_first() =~= s.drop_first().push(c));
        lemma_start_push(s.drop_first(), c);
    }
}

/// White space behind makes no difference.
proof fn lemma_white_behind(s: Seq<char>, c: char)
    requires
        is_white(c),
    ensures
        trimmed(s.push(c)) == trimmed(s),
{
    lemma_start_push(s, c);
    let start = trimmed_start(s);
    if start.len() > 0 {
        assert(start.push(c).drop_last() =~= start);
    } else {
        assert(start =~= Seq::empty());
    }
}

proof fn lemma_pieces(s: Seq<char>)
    ensures
        pieces(s).len() > 0,
    decreases s.len(),
{
    if s.len() > 0 {
        lemma_pieces(s.drop_last());
    }
}

/// What the last text adds to those that are kept.
proof fn lemma_kept_push(texts: Seq<Seq<char>>, text: Seq<char>)
    ensures
        kept(texts.push(text)) == match some_text(text) {
            Some(text) => kept(texts).push(text),
            None => kept(texts),
        },
{
    assert(texts.push(text).drop_last() =~= texts);
}

/// A separator or white space at the end makes no difference to the texts that are kept.
proof fn lemma_filler_char_behind(s: Seq<char>, c: char)
    requires
        is_white(c) || is_separator(c),
    ensures
        kept(pieces(s.push(c))) == kept(pieces(s)),
        all_white(pieces(s).last()) || is_separator(c) ==> all_white(pieces(s.push(c)).last()),
{
    let before = pieces(s);
    lemma_pieces(s);
    assert(s.push(c).drop_last() =~= s);
    if is_separator(c) {
        lemma_kept_push(before, Seq::empty());
        assert(trimmed(Seq::<char>::empty()) =~= Seq::empty());
    } else {
        let last = before.last();
        lemma_kept_push(before.drop_last(), last);
        lemma_kept_push(before.drop_last(), last.push(c));
        lemma_white_behind(last, c);
        assert(before.drop_last().push(last) =~= before);
        if all_white(last) {
            assert forall|i: int| 0 <= i < last.push(c).len() implies is_white(
                #[trigger] last.push(c)[i],
            ) by {
                if i < last.len() {
                    assert(last.push(c)[i] == last[i]);
                }
            }
        }
    }
}

/// A gap at the end makes no difference to the texts that are kept, and the next text begins anew
/// where the gap parts.
proof fn lemma_gap_behind(s: Seq<char>, gap: Seq<char>)
    requires
        is_filler(gap),
    ensures
        kept(pieces(s + gap)) == kept(pieces(s)),
        all_white(pieces(s).last()) || is_parting(gap) ==> all_white(pieces(s + gap).last()),
    decreases gap.len(),
{
    if gap.len() == 0 {
        assert(s + gap =~= s);
    } else {
        let front = gap.drop_last();
        let c = gap.last();
        assert forall|i: int| 0 <= i < front.len() implies is_white(#[trigger] front[i])
            || is_separator(front[i]) by {
            assert(front[i] == gap[i]);
        }
        lemma_gap_behind(s, front);
        assert(is_white(gap[gap.len() - 1]) || is_separator(gap[gap.len() - 1]));
        lemma_filler_char_behind(s + front, c);
        assert((s + front).push(c) =~= s + gap);
        if is_parting(gap) && !is_separator(c) {
            let i = choose|i: int| 0 <= i < gap.len() && is_separator(#[trigger] gap[i]);
            assert(front[i] == gap[i]);
            assert(is_parting(front));
        }
    }
}

/// A text without separators goes on with the last piece.
proof fn lemma_text_behind(s: Seq<char>, text: Seq<char>)
    requires
        forall|i: int| 0 <= i < text.len() ==> !is_separator(#[trigger] text[i]),
    ensures
        pieces(s + text) == pieces(s).drop_last().push(pieces(s).last() + text),
    decreases text.len(),
{
    lemma_pieces(s);
    let before = pieces(s);
    if text.len() == 0 {
        assert(s + text =~= s);
        assert(before.last() + text =~= before.last());
        assert(before.drop_last().push(before.last()) =~= before);
    } else {
        let front = text.drop_last();
        assert forall|i: int| 0 <= i < front.len() implies !is_separator(#[trigger] front[i]) by {
            assert(front[i] == text[i]);
        }
        lemma_text_behind(s, front);
        assert((s + text).drop_last() =~= s + front);
        assert((s + text).last() == text.last());
        assert(!is_separator(text[text.len() - 1]));
        let mid = before.drop_last().push(before.last() + front);
        assert(mid.drop_last() =~= before.drop_last());
        assert((before.last() + front).push(text.last()) =~= before.last() + text);
    }
}

/// A badge behind a gap that parts is one more text that is kept.
proof fn lemma_badge_behind(s: Seq<char>, text: Seq<char>)
    requires
        all_white(pieces(s).last()),
        is_badge(text),
    ensures
        kept(pieces(s + text)) == kept(pieces(s)).push(text),
{
    lemma_pieces(s);
    let before = pieces(s);
    let last = before.last();
    lemma_text_behind(s, text);
    lemma_kept_push(before.drop_last(), last);
    lemma_kept_push(before.drop_last(), last + text);
    assert(before.drop_last().push(last) =~= before);
    lemma_white_in_front(last, text);
    lemma_white_in_front(last, Seq::empty());
    assert(last + Seq::<char>::empty() =~= last);
    assert(trimmed(Seq::<char>::empty()) =~= Seq::empty());
}

/// The gaps are such that they part the texts: there is one before, between and behind them each,
/// and those between hold a separator.
pub open spec fn gaps_part(texts: Seq<Seq<char>>, gaps: Seq<Seq<char>>) -> bool {
    &&& gaps.len() == texts.len() + 1
    &&& forall|i: int| 0 <= i < gaps.len() ==> is_filler(#[trigger] gaps[i])
    &&& forall|i: int| 0 < i < texts.len() ==> is_parting(#[trigger] gaps[i])
}

/// A row without its last text and gap is a row too.
proof fn lemma_shorter_row(texts: Seq<Seq<char>>, gaps: Seq<Seq<char>>)
    requires
        texts.len() > 0,
        gaps_part(texts, gaps),
        forall|i: int| 0 <= i < texts.len() ==> is_badge(#[trigger] texts[i]),
    ensures
        gaps_part(texts.drop_last(), gaps.drop_last()),
        forall|i: int|
            0 <= i < texts.drop_last().len() ==> is_badge(#[trigger] texts.drop_last()[i]),
{
    let (texts1, gaps1) = (texts.drop_last(), gaps.drop_last());
    assert forall|i: int| 0 <= i < gaps1.len() implies is_filler(#[trigger] gaps1[i]) by {
        assert(gaps1[i] == gaps[i]);
    }
    assert forall|i: int| 0 < i < texts1.len() implies is_parting(#[trigger] gaps1[i]) by {
        assert(gaps1[i] == gaps[i]);
    }
    assert forall|i: int| 0 <= i < texts1.len() implies is_badge(#[trigger] texts1[i]) by {
        assert(texts1[i] == texts[i]);
    }
}

proof fn lemma_row(texts: Seq<Seq<char>>, gaps: Seq<Seq<char>>)
    requires
        gaps_part(texts, gaps),
        forall|i: int| 0 <= i < texts.len() ==> is_badge(#[trigger] texts[i]),
    ensures
        kept(pieces(in_a_row(texts, gaps))) == texts,
        texts.len() == 0 || is_parting(gaps.last()) ==> all_white(
            pieces(in_a_row(texts, gaps)).last(),
        ),
    decreases texts.len(),
{
    let none = Seq::<char>::empty();
    if texts.len() == 0 {
        lemma_kept_push(Seq::empty(), none);
        assert(Seq::empty().push(none) =~= seq![none]);
        assert(trimmed(none) =~= none);
        assert(is_filler(gaps[0]));
        lemma_gap_behind(none, gaps[0]);
        assert(none + gaps[0] =~= gaps[0]);
        assert(texts =~= kept(Seq::empty()));
    } else {
        let (texts1, gaps1) = (texts.drop_last(), gaps.drop_last());
        lemma_shorter_row(texts, gaps);
        lemma_row(texts1, gaps1);
        if texts1.len() > 0 {
            assert(gaps1.last() == gaps[texts1.len() as int]);
            assert(is_parting(gaps[texts1.len() as int]));
        }
        let before = in_a_row(texts1, gaps1);
        assert(is_badge(texts[texts.len() - 1]));
        lemma_badge_behind(before, texts.last());
        assert(is_filler(gaps[gaps.len() - 1]));
        lemma_gap_behind(before + texts.last(), gaps.last());
        assert(texts1.push(texts.last()) =~= texts);
    }
}

/// White space in front makes no difference to the texts that are kept.
proof fn lemma_white_char_in_front(c: char, s: Seq<char>)
    requires
        is_white(c),
    ensures
        kept(pieces(seq![c] + s)) == kept(pieces(s)),
        if is_separator(c) {
            pieces(seq![c] + s) == seq![Seq::<char>::empty()] + pieces(s)
        } else {
            &&& pieces(seq![c] + s).len() == pieces(s).len()
            &&& pieces(seq![c] + s)[0] == seq![c] + pieces(s)[0]
            &&& pieces(seq![c] + s).drop_first() == pieces(s).drop_first()
        },
    decreases s.len(),
{
    let none = Seq::<char>::empty();
    let longer = seq![c] + s;
    assert(trimmed(none) =~= none);
    lemma_kept_push(Seq::empty(), none);
    assert(Seq::empty().push(none) =~= seq![none]);
    if s.len() == 0 {
        assert(s =~= none);
        assert(longer =~= none.push(c));
        assert(longer.drop_last() =~= none);
        lemma_filler_char_behind(none, c);
        if is_separator(c) {
            assert(pieces(longer) =~= seq![none] + pieces(s));
        } else {
            assert(pieces(longer) =~= seq![none.push(c)]);
            assert(none.push(c) =~= seq![c] + none);
            assert(pieces(longer).drop_first() =~= pieces(s).drop_first());
        }
    } else {
        let front = s.drop_last();
        let d = s.last();
        lemma_white_char_in_front(c, front);
        assert(longer.drop_last() =~= seq![c] + front);
        assert(longer.last() == d);
        lemma_pieces(front);
        lemma_pieces(s);
        let (a, b) = (pieces(front), pieces(seq![c] + front));
        if is_separator(d) {
            lemma_kept_push(a, none);
            lemma_kept_push(b, none);
            if is_separator(c) {
                assert(pieces(longer) =~= seq![none] + pieces(s));
            } else {
                assert(pieces(longer).drop_first() =~= pieces(s).drop_first()) by {
                    assert(b.push(none).drop_first() =~= b.drop_first().push(none));
                    assert(a.push(none).drop_first() =~= a.drop_first().push(none));
                }
            }
        } else {
            if is_separator(c) {
                assert(b.last() == a.last());
                assert(b.drop_last() =~= seq![none] + a.drop_last());
                assert(pieces(longer) =~= seq![none] + pieces(s));
                lemma_kept_first(none, a.drop_last().push(a.last().push(d)));
            } else if a.len() == 1 {
                assert(b =~= seq![b[0]]);
                assert(a =~= seq![a[0]]);
                assert(pieces(longer) =~= seq![(seq![c] + a[0]).push(d)]);
                assert(pieces(s) =~= seq![a[0].push(d)]);
                assert((seq![c] + a[0]).push(d) =~= seq![c] + a[0].push(d));
                assert(pieces(longer).drop_first() =~= pieces(s).drop_first());
                lemma_kept_push(Seq::empty(), seq![c] + a[0].push(d));
                lemma_kept_push(Seq::empty(), a[0].push(d));
                assert(Seq::empty().push(a[0].push(d)) =~= pieces(s));
                assert(Seq::empty().push(seq![c] + a[0].push(d)) =~= pieces(longer));
                lemma_white_in_front(seq![c], a[0].push(d));
            } else {
                assert(b.last() == b.drop_first().last());
                assert(a.last() == a.drop_first().last());
                assert(pieces(longer).drop_first() =~= b.drop_first().drop_last().push(
                    b.last().push(d),
                ));
                assert(pieces(s).drop_first() =~= a.drop_first().drop_last().push(
                    a.last().push(d),
                ));
                assert(pieces(longer)[0] == b[0]);
                assert(pieces(s)[0] == a[0]);
                lemma_kept_same_front(pieces(longer), pieces(s), c);
            }
        }
    }
}

/// What the first text adds to those that are kept.
proof fn lemma_kept_first(text: Seq<char>, texts: Seq<Seq<char>>)
    ensures
        kept(seq![text] + texts) == match some_text(text) {
            Some(text) => seq![text] + kept(texts),
            None => kept(texts),
        },
    decreases texts.len(),
{
    let all = seq![text] + texts;
    if texts.len() == 0 {
        assert(all =~= Seq::empty().push(text));
        lemma_kept_push(Seq::empty(), text);
        assert(kept(texts) =~= Seq::empty());
        assert(kept(Seq::empty()) =~= Seq::empty());
        if let Some(first) = some_text(text) {
            assert(Seq::empty().push(first) =~= seq![first] + kept(texts));
        }
    } else {
        lemma_kept_first(text, texts.drop_last());
        assert(all.drop_last() =~= seq![text] + texts.drop_last());
        assert(all.last() == texts.last());
        if some_text(text) is Some && some_text(texts.last()) is Some {
            let front = kept(texts.drop_last());
            let last = some_text(texts.last())->0;
            assert((seq![some_text(text)->0] + front).push(last) =~= seq![some_text(text)->0]
                + front.push(last));
        }
    }
}

/// Two rows that differ only in white space in front of their first text keep the same.
proof fn lemma_kept_same_front(a: Seq<Seq<char>>, b: Seq<Seq<char>>, c: char)
    requires
        is_white(c),
        a.len() > 0,
        b.len() > 0,
        a[0] == seq![c] + b[0],
        a.drop_first() == b.drop_first(),
    ensures
        kept(a) == kept(b),
{
    lemma_white_in_front(seq![c], b[0]);
    lemma_kept_first(a[0], a.drop_first());
    lemma_kept_first(b[0], b.drop_first());
    assert(seq![a[0]] + a.drop_first() =~= a);
    assert(seq![b[0]] + b.drop_first() =~= b);
}

/// Trimming makes no difference to the texts that are kept.
proof fn lemma_trimmed_start_keeps(s: Seq<char>)
    ensures
        kept(pieces(trimmed_start(s))) == kept(pieces(s)),
    decreases s.len(),
{
    if s.len() > 0 && is_white(s[0]) {
        lemma_trimmed_start_keeps(s.drop_first());
        lemma_white_char_in_front(s[0], s.drop_first());
        assert(seq![s[0]] + s.drop_first() =~= s);
    }
}

proof fn lemma_trimmed_end_keeps(s: Seq<char>)
    ensures
        kept(pieces(trimmed_end(s))) == kept(pieces(s)),
    decreases s.len(),
{
    if s.len() > 0 && is_white(s.last()) {
        lemma_trimmed_end_keeps(s.drop_last());
        lemma_filler_char_behind(s.drop_last(), s.last());
        assert(s.drop_last().push(s.last()) =~= s);
    }
}

/// What a row begins with, when white space in front is left off: a separator, or the first text.
proof fn lemma_row_start(texts: Seq<Seq<char>>, gaps: Seq<Seq<char>>)
    requires
        gaps_part(texts, gaps),
        forall|i: int| 0 <= i < texts.len() ==> is_badge(#[trigger] texts[i]),
    ensures
        ({
            let row = in_a_row(texts, gaps);
            &&& texts.len() > 0 ==> row.len() >= gaps[0].len() + texts[0].len()
                && row.take((gaps[0].len() + texts[0].len()) as int) == gaps[0] + texts[0]
            &&& texts.len() == 0 ==> row == gaps[0]
        }),
    decreases texts.len(),
{
    if texts.len() > 0 {
        let (texts1, gaps1) = (texts.drop_last(), gaps.drop_last());
        lemma_shorter_row(texts, gaps);
        lemma_row_start(texts1, gaps1);
        let before = in_a_row(texts1, gaps1);
        let row = in_a_row(texts, gaps);
        let n = (gaps[0].len() + texts[0].len()) as int;
        assert(gaps1[0] == gaps[0]);
        if texts1.len() > 0 {
            assert(texts1[0] == texts[0]);
            assert(row.take(n) =~= before.take(n));
        } else {
            assert(row.take(n) =~= gaps[0] + texts[0]);
        }
    }
}

/// What is left of a text whose first characters are filler and then one that is not white: it
/// begins with a separator or with that character.
proof fn lemma_start_of_trimmed(s: Seq<char>, n: int)
    requires
        0 <= n <= s.len(),
        is_filler(s.take(n)),
        n < s.len() ==> !is_white(s[n]),
    ensures
        trimmed_start(s).len() > 0 ==> is_separator(trimmed_start(s)[0]) || (n < s.len()
            && trimmed_start(s)[0] == s[n]),
    decreases s.len(),
{
    if s.len() > 0 && n > 0 {
        assert(s.take(n)[0] == s[0]);
        if is_white(s[0]) {
            let t = s.drop_first();
            assert forall|i: int| 0 <= i < t.take(n - 1).len() implies is_white(
                #[trigger] t.take(n - 1)[i],
            ) || is_separator(t.take(n - 1)[i]) by {
                assert(t.take(n - 1)[i] == s.take(n)[i + 1]);
            }
            lemma_start_of_trimmed(t, n - 1);
        }
    }
}

/// What is kept of a row, trimmed, are the texts; an empty one has none.
pub proof fn lemma_row_keeps(texts: Seq<Seq<char>>, gaps: Seq<Seq<char>>)
    requires
        gaps_part(texts, gaps),
        forall|i: int| 0 <= i < texts.len() ==> is_badge(#[trigger] texts[i]),
    ensures
        kept(pieces(trimmed(in_a_row(texts, gaps)))) == texts,
        trimmed(in_a_row(texts, gaps)).len() == 0 ==> texts == Seq::<Seq<char>>::empty(),
{
    let row = in_a_row(texts, gaps);
    let text = trimmed(row);
    lemma_row(texts, gaps);
    lemma_trimmed_start_keeps(row);
    lemma_trimmed_end_keeps(trimmed_start(row));
    if text.len() == 0 {
        assert(text =~= Seq::empty());
        lemma_kept_push(Seq::empty(), Seq::<char>::empty());
        assert(Seq::empty().push(Seq::<char>::empty()) =~= seq![Seq::<char>::empty()]);
        assert(trimmed(Seq::<char>::empty()) =~= Seq::empty());
        assert(kept(pieces(text)) =~= Seq::empty());
    }
}

/// Texts that are written in a row come back as they were: in the same order, none lost, none
/// added. Between two of them stands a gap of separators and white space, with at least one
/// separator; before the first and behind the last there may be any. No text is blank, has white
/// space on either side, or holds a separator, and the first does not begin like a list.
pub proof fn law_badges_in_a_row_come_back(texts: Seq<Seq<char>>, gaps: Seq<Seq<char>>)
    requires
        gaps_part(texts, gaps),
        forall|i: int| 0 <= i < texts.len() ==> is_badge(#[trigger] texts[i]),
        texts.len() > 0 ==> texts[0][0] != '[',
    ensures
        badges_of(in_a_row(texts, gaps)) == texts,
{
    let row = in_a_row(texts, gaps);
    lemma_row_keeps(texts, gaps);
    lemma_row_start(texts, gaps);
    assert(is_filler(gaps[0]));
    let n = gaps[0].len() as int;
    if texts.len() > 0 {
        let first = texts[0];
        assert(is_badge(first));
        law_trimmed_text_stays(first);
        let m = (gaps[0].len() + first.len()) as int;
        assert(row.take(n) =~= row.take(m).take(n));
        assert(row.take(m).take(n) =~= gaps[0]);
        assert(row[n] == row.take(m)[n]);
        assert(row[n] == first[0]);
    } else {
        assert(row.take(n) =~= gaps[0]);
    }
    lemma_start_of_trimmed(row, n);
    lemma_trimmed_end(trimmed_start(row));
}

/// A text that is nothing but separators and white space has no badges.
pub proof fn law_filler_has_no_badges(value: Seq<char>)
    requires
        is_filler(value),
    ensures
        badges_of(value) == Seq::<Seq<char>>::empty(),
{
    let gaps = seq![value];
    assert(gaps[0] == value);
    law_badges_in_a_row_come_back(Seq::empty(), gaps);
}

} // verus!
