//! Placeholders in address rules are filled in where they stand, and nowhere else.

use crate::laws::lemma_decimal;
use crate::model::Place;
use crate::text::{decimal, is_digit, replaced, stands_at};
use crate::url_rule::{placed, templated_at};
use vstd::prelude::*;

verus! {

/// What a placeholder stands for.
pub enum Hole {
    Index,
    Data,
    Review,
    Page,
}

/// A piece of a rule: a text, or a placeholder in single or double braces.
pub enum Piece {
    Text(Seq<char>),
    Hole { double: bool, hole: Hole },
}

/// A placeholder as it is written.
pub open spec fn hole_text(double: bool, hole: Hole) -> Seq<char> {
    match (double, hole) {
        (false, Hole::Index) => "{paraIndex}"@,
        (false, Hole::Data) => "{paraData}"@,
        (false, Hole::Review) => "{reviewId}"@,
        (false, Hole::Page) => "{page}"@,
        (true, Hole::Index) => "{{paraIndex}}"@,
        (true, Hole::Data) => "{{paraData}}"@,
        (true, Hole::Review) => "{{reviewId}}"@,
        (true, Hole::Page) => "{{page}}"@,
    }
}

/// A piece as it is written.
pub open spec fn piece_text(piece: Piece) -> Seq<char> {
    match piece {
        Piece::Text(text) => text,
        Piece::Hole { double, hole } => hole_text(double, hole),
    }
}

/// A rule as it is written.
pub open spec fn written(pieces: Seq<Piece>) -> Seq<char>
    decreases pieces.len(),
{
    if pieces.len() == 0 {
        Seq::empty()
    } else {
        piece_text(pieces[0]) + written(pieces.drop_first())
    }
}

/// What a placeholder is filled with at a place: the paragraph and the page in decimal, the data of
/// the paragraph, and the review, where there is one.
pub open spec fn value_at(place: Place, hole: Hole) -> Seq<char> {
    match hole {
        Hole::Index => decimal(place.para_index as int),
        Hole::Data => place.para_data@,
        Hole::Review => match place.review_id {
            Some(id) => id@,
            None => Seq::empty(),
        },
        Hole::Page => decimal(place.page as int),
    }
}

/// A rule with its placeholders filled in.
pub open spec fn filled_at(pieces: Seq<Piece>, place: Place) -> Seq<char>
    decreases pieces.len(),
{
    if pieces.len() == 0 {
        Seq::empty()
    } else {
        (match pieces[0] {
            Piece::Text(text) => text,
            Piece::Hole { hole, .. } => value_at(place, hole),
        }) + filled_at(pieces.drop_first(), place)
    }
}

/// Is there no opening brace in the text?
pub open spec fn braceless(s: Seq<char>) -> bool {
    forall|i: int| 0 <= i < s.len() ==> #[trigger] s[i] != '{'
}

/// Are the texts among the pieces without opening braces?
pub open spec fn plain_texts(pieces: Seq<Piece>) -> bool {
    forall|i: int|
        0 <= i < pieces.len() ==> (#[trigger] pieces[i] matches Piece::Text(text) ==> braceless(
            text,
        ))
}

/// The pattern cannot stand in a text at a place in `s`, whatever follows.
spec fn clashes(s: Seq<char>, pat: Seq<char>, i: int) -> bool {
    exists|j: int|
        0 <= j < pat.len() && 0 <= i + j < s.len() && #[trigger] pat[j] != s[i + j]
}

proof fn lemma_skip(s: Seq<char>, rest: Seq<char>, pat: Seq<char>, by: Seq<char>)
    requires
        pat.len() > 0,
        forall|i: int| 0 <= i < s.len() ==> #[trigger] clashes(s, pat, i),
    ensures
        replaced(s + rest, pat, by) == s + replaced(rest, pat, by),
    decreases s.len(),
{
    let all = s + rest;
    if s.len() == 0 {
        assert(all =~= rest);
        assert(s + replaced(rest, pat, by) =~= replaced(rest, pat, by));
    } else {
        let t = s.drop_first();
        assert(clashes(s, pat, 0));
        let j = choose|j: int|
            0 <= j < pat.len() && 0 <= 0 + j < s.len() && #[trigger] pat[j] != s[0 + j];
        if stands_at(all, pat, 0) {
            assert(all.subrange(0, pat.len() as int)[j] == all[j]);
            assert(all[j] == s[j]);
        }
        assert forall|i: int| 0 <= i < t.len() implies #[trigger] clashes(t, pat, i) by {
            assert(clashes(s, pat, i + 1));
            let k = choose|k: int|
                0 <= k < pat.len() && 0 <= i + 1 + k < s.len() && #[trigger] pat[k] != s[i + 1 + k];
            assert(t[i + k] == s[i + 1 + k]);
        }
        assert(all.drop_first() =~= t + rest);
        assert(all[0] == s[0]);
        if all.len() >= pat.len() {
            lemma_skip(t, rest, pat, by);
            assert(seq![s[0]] + (t + replaced(rest, pat, by)) =~= s + replaced(rest, pat, by));
        }
    }
}

proof fn lemma_hole_chars(double: bool, hole: Hole)
    ensures
        ({
            let s = hole_text(double, hole);
            let n: int = if double {
                2
            } else {
                1
            };
            &&& s.len() >= n + 4
            &&& s[0] == '{'
            &&& double ==> s[1] == '{'
            &&& forall|i: int| n <= i < s.len() ==> #[trigger] s[i] != '{'
            &&& s[n] == (if hole is Review {
                'r'
            } else {
                'p'
            })
            &&& !(hole is Review) ==> s[n + 2] == (if hole is Page {
                'g'
            } else {
                'r'
            })
            &&& (hole is Index || hole is Data) ==> s.len() > n + 4 && s[n + 4] == (
            if hole is Index {
                'I'
            } else {
                'D'
            })
        }),
{
    reveal_strlit("{paraIndex}");
    reveal_strlit("{paraData}");
    reveal_strlit("{reviewId}");
    reveal_strlit("{page}");
    reveal_strlit("{{paraIndex}}");
    reveal_strlit("{{paraData}}");
    reveal_strlit("{{reviewId}}");
    reveal_strlit("{{page}}");
}

/// Where the names of two placeholders differ.
spec fn differ_at(a: Hole, b: Hole) -> int {
    if a is Review || b is Review {
        0
    } else if a is Page || b is Page {
        2
    } else {
        4
    }
}

proof fn lemma_holes_clash(d1: bool, h1: Hole, d2: bool, h2: Hole)
    requires
        d1 != d2 || h1 != h2,
        d1 && !d2 ==> h1 != h2,
    ensures
        forall|i: int|
            0 <= i < hole_text(d1, h1).len() ==> #[trigger] clashes(
                hole_text(d1, h1),
                hole_text(d2, h2),
                i,
            ),
{
    let s = hole_text(d1, h1);
    let pat = hole_text(d2, h2);
    lemma_hole_chars(d1, h1);
    lemma_hole_chars(d2, h2);
    let n1: int = if d1 {
        2
    } else {
        1
    };
    let n2: int = if d2 {
        2
    } else {
        1
    };
    assert forall|i: int| 0 <= i < s.len() implies #[trigger] clashes(s, pat, i) by {
        if s[i] != '{' {
            assert(pat[0] != s[i + 0]);
        } else if i + n2 != n1 {
            // One has a brace where the other has a letter.
            if i + n2 < n1 {
                assert(pat[n2] != s[i + n2]);
            } else {
                assert(pat[n1 - i] != s[i + (n1 - i)]);
            }
        } else {
            let j = n2 + differ_at(h1, h2);
            assert(h1 != h2);
            assert(pat[j] != s[i + j]);
        }
    }
}

/// The order in which the placeholders are filled in.
pub open spec fn turn_of(hole: Hole) -> nat {
    match hole {
        Hole::Index => 0,
        Hole::Data => 1,
        Hole::Review => 2,
        Hole::Page => 3,
    }
}

/// The pieces with the placeholders filled in whose turn is `turn` or later, the others left as
/// they are written. In what the data of the paragraph and the review bring in, placeholders are
/// filled in whose turn comes later.
pub open spec fn filled_from(
    turn: nat,
    pieces: Seq<Piece>,
    data: Seq<Piece>,
    review: Seq<Piece>,
    place: Place,
) -> Seq<char>
    decreases 4 - turn, pieces.len(),
{
    if pieces.len() == 0 {
        Seq::empty()
    } else {
        (match pieces[0] {
            Piece::Text(text) => text,
            Piece::Hole { double, hole } => if turn_of(hole) < turn {
                hole_text(double, hole)
            } else {
                match hole {
                    Hole::Index => decimal(place.para_index as int),
                    Hole::Data => if turn <= 1 {
                        filled_from(2, data, data, review, place)
                    } else {
                        Seq::empty()
                    },
                    Hole::Review => if turn <= 2 {
                        filled_from(3, review, data, review, place)
                    } else {
                        Seq::empty()
                    },
                    Hole::Page => decimal(place.page as int),
                }
            },
        }) + filled_from(turn, pieces.drop_first(), data, review, place)
    }
}

/// The pieces with others in place of a placeholder.
spec fn splice(pieces: Seq<Piece>, double: bool, hole: Hole, by: Seq<Piece>) -> Seq<Piece>
    decreases pieces.len(),
{
    if pieces.len() == 0 {
        Seq::empty()
    } else {
        (if pieces[0] == (Piece::Hole { double, hole }) {
            by
        } else {
            seq![pieces[0]]
        }) + splice(pieces.drop_first(), double, hole, by)
    }
}

/// Does the placeholder not occur?
spec fn lacks(pieces: Seq<Piece>, double: bool, hole: Hole) -> bool {
    forall|i: int| 0 <= i < pieces.len() ==> #[trigger] pieces[i] != (Piece::Hole { double, hole })
}

proof fn lemma_written_concat(a: Seq<Piece>, b: Seq<Piece>)
    ensures
        written(a + b) == written(a) + written(b),
    decreases a.len(),
{
    if a.len() == 0 {
        assert(a + b =~= b);
        assert(written(a) + written(b) =~= written(b));
    } else {
        lemma_written_concat(a.drop_first(), b);
        assert((a + b).drop_first() =~= a.drop_first() + b);
        assert((a + b)[0] == a[0]);
        assert(piece_text(a[0]) + (written(a.drop_first()) + written(b)) =~= written(a) + written(
            b,
        ));
    }
}

proof fn lemma_splice_is_plain(pieces: Seq<Piece>, double: bool, hole: Hole, by: Seq<Piece>)
    requires
        plain_texts(pieces),
        plain_texts(by),
    ensures
        plain_texts(splice(pieces, double, hole, by)),
    decreases pieces.len(),
{
    if pieces.len() > 0 {
        let rest = pieces.drop_first();
        assert forall|i: int| 0 <= i < rest.len() implies (#[trigger] rest[i] matches Piece::Text(
            text,
        ) ==> braceless(text)) by {
            assert(rest[i] == pieces[i + 1]);
        }
        lemma_splice_is_plain(rest, double, hole, by);
        let first = if pieces[0] == (Piece::Hole { double, hole }) {
            by
        } else {
            seq![pieces[0]]
        };
        let tail = splice(rest, double, hole, by);
        let all = first + tail;
        assert(pieces[0] matches Piece::Text(text) ==> braceless(text));
        assert forall|i: int| 0 <= i < all.len() implies (#[trigger] all[i] matches Piece::Text(
            text,
        ) ==> braceless(text)) by {
            if i < first.len() {
                assert(all[i] == first[i]);
                if first != by {
                    assert(first[i] == pieces[0]);
                }
            } else {
                assert(all[i] == tail[i - first.len()]);
            }
        }
    }
}

proof fn lemma_splice_lacks(
    pieces: Seq<Piece>,
    double: bool,
    hole: Hole,
    by: Seq<Piece>,
    d: bool,
    h: Hole,
)
    requires
        lacks(by, d, h),
        (d == double && h == hole) || lacks(pieces, d, h),
    ensures
        lacks(splice(pieces, double, hole, by), d, h),
    decreases pieces.len(),
{
    if pieces.len() > 0 {
        let rest = pieces.drop_first();
        assert(lacks(pieces, d, h) ==> lacks(rest, d, h)) by {
            assert forall|i: int| lacks(pieces, d, h) && 0 <= i < rest.len() implies
                #[trigger] rest[i] != (Piece::Hole { double: d, hole: h }) by {
                assert(rest[i] == pieces[i + 1]);
            }
        }
        lemma_splice_lacks(rest, double, hole, by, d, h);
        let first = if pieces[0] == (Piece::Hole { double, hole }) {
            by
        } else {
            seq![pieces[0]]
        };
        let tail = splice(rest, double, hole, by);
        let all = first + tail;
        assert forall|i: int| 0 <= i < all.len() implies #[trigger] all[i] != (Piece::Hole {
            double: d,
            hole: h,
        }) by {
            if i < first.len() {
                assert(all[i] == first[i]);
                if pieces[0] == (Piece::Hole { double, hole }) {
                    assert(by[i] == first[i]);
                }
            } else {
                assert(all[i] == tail[i - first.len()]);
            }
        }
    }
}

proof fn lemma_splice(pieces: Seq<Piece>, double: bool, hole: Hole, by: Seq<Piece>)
    requires
        plain_texts(pieces),
        !double ==> lacks(pieces, true, hole),
    ensures
        replaced(written(pieces), hole_text(double, hole), written(by)) == written(
            splice(pieces, double, hole, by),
        ),
    decreases pieces.len(),
{
    let pat = hole_text(double, hole);
    let value = written(by);
    lemma_hole_chars(double, hole);
    if pieces.len() > 0 {
        let rest = pieces.drop_first();
        let w = written(rest);
        assert forall|i: int| 0 <= i < rest.len() implies (#[trigger] rest[i] matches Piece::Text(
            text,
        ) ==> braceless(text)) by {
            assert(rest[i] == pieces[i + 1]);
        }
        assert forall|i: int| !double && 0 <= i < rest.len() implies #[trigger] rest[i] != (
        Piece::Hole { double: true, hole }) by {
            assert(rest[i] == pieces[i + 1]);
        }
        lemma_splice(rest, double, hole, by);
        let first = piece_text(pieces[0]);
        let tail = splice(rest, double, hole, by);
        let all = first + w;
        match pieces[0] {
            Piece::Text(text) => {
                assert(braceless(text));
                assert forall|i: int| 0 <= i < first.len() implies #[trigger] clashes(
                    first,
                    pat,
                    i,
                ) by {
                    assert(pat[0] != first[i + 0]);
                }
                lemma_skip(first, w, pat, value);
                lemma_written_one(pieces[0], tail);
            },
            Piece::Hole { double: d, hole: h } => {
                if d == double && h == hole {
                    assert(all.subrange(0, pat.len() as int) =~= pat);
                    assert(all.skip(pat.len() as int) =~= w);
                    lemma_written_concat(by, tail);
                } else {
                    lemma_holes_clash(d, h, double, hole);
                    lemma_skip(first, w, pat, value);
                    lemma_written_one(pieces[0], tail);
                }
            },
        }
    }
}

proof fn lemma_written_one(piece: Piece, rest: Seq<Piece>)
    ensures
        written(seq![piece] + rest) == piece_text(piece) + written(rest),
{
    assert((seq![piece] + rest).drop_first() =~= rest);
}

/// The pieces with others in place of both forms of a placeholder.
spec fn both(pieces: Seq<Piece>, hole: Hole, by: Seq<Piece>) -> Seq<Piece> {
    splice(splice(pieces, true, hole, by), false, hole, by)
}

proof fn lemma_both(pieces: Seq<Piece>, hole: Hole, by: Seq<Piece>)
    requires
        plain_texts(pieces),
        plain_texts(by),
        lacks(by, true, hole),
    ensures
        placed(written(pieces), hole_text(true, hole), hole_text(false, hole), written(by))
            == written(both(pieces, hole, by)),
        plain_texts(both(pieces, hole, by)),
{
    let once = splice(pieces, true, hole, by);
    lemma_splice(pieces, true, hole, by);
    lemma_splice_is_plain(pieces, true, hole, by);
    lemma_splice_lacks(pieces, true, hole, by, true, hole);
    lemma_splice(once, false, hole, by);
    lemma_splice_is_plain(once, false, hole, by);
}

proof fn lemma_filled_concat(
    turn: nat,
    a: Seq<Piece>,
    b: Seq<Piece>,
    data: Seq<Piece>,
    review: Seq<Piece>,
    place: Place,
)
    ensures
        filled_from(turn, a + b, data, review, place) == filled_from(turn, a, data, review, place)
            + filled_from(turn, b, data, review, place),
    decreases a.len(),
{
    let f = |p: Seq<Piece>| filled_from(turn, p, data, review, place);
    if a.len() == 0 {
        assert(a + b =~= b);
        assert(f(a) + f(b) =~= f(b));
    } else {
        lemma_filled_concat(turn, a.drop_first(), b, data, review, place);
        assert((a + b).drop_first() =~= a.drop_first() + b);
        assert((a + b)[0] == a[0]);
        assert(f(a + b) =~= f(a) + f(b));
    }
}

/// A turn more: the placeholder of the turn, in one of its forms, gives way to its pieces.
proof fn lemma_turn(
    turn: nat,
    pieces: Seq<Piece>,
    double: bool,
    hole: Hole,
    by: Seq<Piece>,
    data: Seq<Piece>,
    review: Seq<Piece>,
    place: Place,
)
    requires
        turn == turn_of(hole),
        !double ==> lacks(pieces, true, hole),
        lacks(by, true, hole) && lacks(by, false, hole),
        hole is Index ==> by == seq![Piece::Text(decimal(place.para_index as int))],
        hole is Data ==> by == data,
        hole is Review ==> by == review,
        hole is Page ==> by == seq![Piece::Text(decimal(place.page as int))],
    ensures
        double ==> filled_from(turn, splice(pieces, double, hole, by), data, review, place)
            == filled_from(turn, pieces, data, review, place),
        !double ==> filled_from(turn + 1, splice(pieces, double, hole, by), data, review, place)
            == filled_from(turn, pieces, data, review, place),
    decreases pieces.len(),
{
    if pieces.len() > 0 {
        let rest = pieces.drop_first();
        assert forall|i: int| !double && 0 <= i < rest.len() implies #[trigger] rest[i] != (
        Piece::Hole { double: true, hole }) by {
            assert(rest[i] == pieces[i + 1]);
        }
        lemma_turn(turn, rest, double, hole, by, data, review, place);
        let tail = splice(rest, double, hole, by);
        let next: nat = if double {
            turn
        } else {
            turn + 1
        };
        if pieces[0] == (Piece::Hole { double, hole }) {
            lemma_filled_concat(next, by, tail, data, review, place);
            lemma_turn_passes(turn, by, hole, data, review, place);
            lemma_filled_text(next, by, data, review, place);
            lemma_filled_text(turn + 1, by, data, review, place);
        } else {
            let one = seq![pieces[0]];
            lemma_filled_concat(next, one, tail, data, review, place);
            assert(one.drop_first() =~= Seq::empty());
            assert(filled_from(next, one.drop_first(), data, review, place) =~= Seq::empty());
            lemma_filled_one(next, pieces[0], data, review, place);
            lemma_filled_one(turn, pieces[0], data, review, place);
            if let Piece::Hole { double: d, hole: h } = pieces[0] {
                if h == hole {
                    assert(d != double);
                    assert(double || pieces[0] != (Piece::Hole { double: true, hole }));
                } else if turn_of(h) == turn {
                    assert(h == hole);
                }
            }
            assert(filled_from(turn, pieces, data, review, place) =~= filled_from(
                turn,
                one,
                data,
                review,
                place,
            ) + filled_from(turn, rest, data, review, place));
        }
    }
}

/// Pieces without the placeholder of a turn are the same before and after the turn.
proof fn lemma_turn_passes(
    turn: nat,
    pieces: Seq<Piece>,
    hole: Hole,
    data: Seq<Piece>,
    review: Seq<Piece>,
    place: Place,
)
    requires
        turn == turn_of(hole),
        lacks(pieces, true, hole),
        lacks(pieces, false, hole),
    ensures
        filled_from(turn, pieces, data, review, place) == filled_from(
            turn + 1,
            pieces,
            data,
            review,
            place,
        ),
    decreases pieces.len(),
{
    if pieces.len() > 0 {
        let rest = pieces.drop_first();
        assert forall|i: int| 0 <= i < rest.len() implies #[trigger] rest[i] != (Piece::Hole {
            double: true,
            hole,
        }) && rest[i] != (Piece::Hole { double: false, hole }) by {
            assert(rest[i] == pieces[i + 1]);
        }
        lemma_turn_passes(turn, rest, hole, data, review, place);
        if let Piece::Hole { double, hole: h } = pieces[0] {
            assert(pieces[0] != (Piece::Hole { double: true, hole }));
            assert(pieces[0] != (Piece::Hole { double: false, hole }));
            if turn_of(h) == turn {
                assert(h == hole);
            }
        }
    }
}

proof fn lemma_filled_one(
    turn: nat,
    piece: Piece,
    data: Seq<Piece>,
    review: Seq<Piece>,
    place: Place,
)
    ensures
        filled_from(turn, seq![piece], data, review, place) == (match piece {
            Piece::Text(text) => text,
            Piece::Hole { double, hole } => if turn_of(hole) < turn {
                hole_text(double, hole)
            } else {
                match hole {
                    Hole::Index => decimal(place.para_index as int),
                    Hole::Data => if turn <= 1 {
                        filled_from(2, data, data, review, place)
                    } else {
                        Seq::empty()
                    },
                    Hole::Review => if turn <= 2 {
                        filled_from(3, review, data, review, place)
                    } else {
                        Seq::empty()
                    },
                    Hole::Page => decimal(place.page as int),
                }
            },
        }),
{
    let one = seq![piece];
    assert(one.drop_first() =~= Seq::empty());
    let rest = filled_from(turn, one.drop_first(), data, review, place);
    assert(rest =~= Seq::empty());
    let whole = filled_from(turn, one, data, review, place);
    assert(whole.take(whole.len() - rest.len()) =~= whole);
}

/// A text alone is itself at every turn.
proof fn lemma_filled_text(
    turn: nat,
    pieces: Seq<Piece>,
    data: Seq<Piece>,
    review: Seq<Piece>,
    place: Place,
)
    ensures
        pieces.len() == 1 && pieces[0] is Text ==> filled_from(turn, pieces, data, review, place)
            == pieces[0]->Text_0,
{
    if pieces.len() == 1 && pieces[0] is Text {
        assert(pieces =~= seq![pieces[0]]);
        lemma_filled_one(turn, pieces[0], data, review, place);
    }
}

/// Behind the last turn everything is as it is written.
proof fn lemma_last_turn(
    pieces: Seq<Piece>,
    data: Seq<Piece>,
    review: Seq<Piece>,
    place: Place,
)
    ensures
        filled_from(4, pieces, data, review, place) == written(pieces),
    decreases pieces.len(),
{
    if pieces.len() > 0 {
        lemma_last_turn(pieces.drop_first(), data, review, place);
    }
}

proof fn lemma_whole_turn(
    turn: nat,
    pieces: Seq<Piece>,
    hole: Hole,
    by: Seq<Piece>,
    data: Seq<Piece>,
    review: Seq<Piece>,
    place: Place,
)
    requires
        turn == turn_of(hole),
        lacks(by, true, hole) && lacks(by, false, hole),
        hole is Index ==> by == seq![Piece::Text(decimal(place.para_index as int))],
        hole is Data ==> by == data,
        hole is Review ==> by == review,
        hole is Page ==> by == seq![Piece::Text(decimal(place.page as int))],
    ensures
        filled_from(turn + 1, both(pieces, hole, by), data, review, place) == filled_from(
            turn,
            pieces,
            data,
            review,
            place,
        ),
{
    lemma_turn(turn, pieces, true, hole, by, data, review, place);
    lemma_splice_lacks(pieces, true, hole, by, true, hole);
    lemma_turn(turn, splice(pieces, true, hole, by), false, hole, by, data, review, place);
}

/// Placeholders are filled in in turn: the paragraph, its data, the review, the page. What the data
/// or the review brings in is gone through for the placeholders whose turn comes later, and for no
/// others. Here the rule, the data and the review are made of texts without opening braces and of
/// placeholders, the data not of its own and the review not of its own.
pub proof fn law_placeholders_are_filled_in_in_turn(
    pieces: Seq<Piece>,
    data: Seq<Piece>,
    review: Seq<Piece>,
    place: Place,
)
    requires
        plain_texts(pieces),
        plain_texts(data),
        plain_texts(review),
        place.para_data@ == written(data),
        place.review_id matches Some(id) ==> id@ == written(review),
        place.review_id is None ==> review.len() == 0,
        forall|i: int|
            0 <= i < data.len() ==> !(#[trigger] data[i] matches Piece::Hole {
                hole: Hole::Data,
                ..
            }),
        forall|i: int|
            0 <= i < review.len() ==> !(#[trigger] review[i] matches Piece::Hole {
                hole: Hole::Review,
                ..
            }),
    ensures
        templated_at(written(pieces), place) == filled_from(0, pieces, data, review, place),
{
    let index = seq![Piece::Text(decimal(place.para_index as int))];
    let page = seq![Piece::Text(decimal(place.page as int))];
    lemma_decimal_is_braceless(place.para_index as int);
    lemma_decimal_is_braceless(place.page as int);
    assert(place.review() =~= written(review));
    lemma_written_text(decimal(place.para_index as int));
    lemma_written_text(decimal(place.page as int));
    assert(lacks(data, true, Hole::Data) && lacks(data, false, Hole::Data));
    assert(lacks(review, true, Hole::Review) && lacks(review, false, Hole::Review));
    let a = both(pieces, Hole::Index, index);
    let b = both(a, Hole::Data, data);
    let c = both(b, Hole::Review, review);
    let d = both(c, Hole::Page, page);
    lemma_both(pieces, Hole::Index, index);
    lemma_both(a, Hole::Data, data);
    lemma_both(b, Hole::Review, review);
    lemma_both(c, Hole::Page, page);
    lemma_whole_turn(0, pieces, Hole::Index, index, data, review, place);
    lemma_whole_turn(1, a, Hole::Data, data, data, review, place);
    lemma_whole_turn(2, b, Hole::Review, review, data, review, place);
    lemma_whole_turn(3, c, Hole::Page, page, data, review, place);
    lemma_last_turn(d, data, review, place);
}

proof fn lemma_written_text(text: Seq<char>)
    ensures
        written(seq![Piece::Text(text)]) == text,
{
    let one = seq![Piece::Text(text)];
    assert(one.drop_first() =~= Seq::empty());
    assert(written(one.drop_first()) =~= Seq::empty());
    assert(written(one) =~= text);
}

proof fn lemma_plain_values(
    pieces: Seq<Piece>,
    data: Seq<Piece>,
    review: Seq<Piece>,
    place: Place,
)
    requires
        data == seq![Piece::Text(place.para_data@)],
        review == seq![Piece::Text(value_at(place, Hole::Review))],
    ensures
        filled_from(0, pieces, data, review, place) == filled_at(pieces, place),
    decreases pieces.len(),
{
    if pieces.len() > 0 {
        lemma_plain_values(pieces.drop_first(), data, review, place);
        lemma_filled_text(2, data, data, review, place);
        lemma_filled_text(3, review, data, review, place);
    }
}

proof fn lemma_decimal_is_braceless(n: int)
    ensures
        braceless(decimal(n)),
{
    lemma_decimal(n);
    assert forall|i: int| 0 <= i < decimal(n).len() implies #[trigger] decimal(n)[i] != '{' by {
        assert(is_digit(decimal(n)[i]) || decimal(n)[i] == '-');
    }
}

/// No review is the same as an empty one.
proof fn lemma_no_review(pieces: Seq<Piece>, data: Seq<Piece>, place: Place)
    requires
        data == seq![Piece::Text(place.para_data@)],
    ensures
        filled_from(0, pieces, data, Seq::empty(), place) == filled_from(
            0,
            pieces,
            data,
            seq![Piece::Text(Seq::empty())],
            place,
        ),
    decreases pieces.len(),
{
    let none = Seq::<Piece>::empty();
    let blank = seq![Piece::Text(Seq::empty())];
    if pieces.len() > 0 {
        lemma_no_review(pieces.drop_first(), data, place);
        lemma_filled_text(2, data, data, none, place);
        lemma_filled_text(2, data, data, blank, place);
        lemma_filled_text(3, blank, data, blank, place);
        assert(filled_from(3, none, data, none, place) == Seq::<char>::empty());
    }
}

/// Every placeholder of a rule, in single or double braces, is filled with what it stands for at
/// the place, and every text around it is left as it is: for texts and values without opening
/// braces.
pub proof fn law_placeholders_are_filled_in(pieces: Seq<Piece>, place: Place)
    requires
        plain_texts(pieces),
        braceless(place.para_data@),
        place.review_id matches Some(id) ==> braceless(id@),
    ensures
        templated_at(written(pieces), place) == filled_at(pieces, place),
{
    let data = seq![Piece::Text(place.para_data@)];
    let value = value_at(place, Hole::Review);
    let review = if place.review_id is Some {
        seq![Piece::Text(value)]
    } else {
        Seq::empty()
    };
    lemma_written_text(place.para_data@);
    lemma_written_text(value);
    law_placeholders_are_filled_in_in_turn(pieces, data, review, place);
    if place.review_id is Some {
        lemma_plain_values(pieces, data, review, place);
    } else {
        lemma_no_review(pieces, data, place);
        lemma_plain_values(pieces, data, seq![Piece::Text(value)], place);
    }
}

proof fn lemma_one_hole(
    before: Seq<char>,
    behind: Seq<char>,
    double: bool,
    hole: Hole,
    place: Place,
)
    requires
        braceless(before),
        braceless(behind),
        braceless(place.para_data@),
        place.review_id matches Some(id) ==> braceless(id@),
    ensures
        templated_at(before + hole_text(double, hole) + behind, place) == before + value_at(
            place,
            hole,
        ) + behind,
{
    let pieces = seq![Piece::Text(before), Piece::Hole { double, hole }, Piece::Text(behind)];
    law_placeholders_are_filled_in(pieces, place);
    let (one, two) = (pieces.drop_first(), pieces.drop_first().drop_first());
    assert(one[0] == pieces[1] && two[0] == pieces[2]);
    assert(two.drop_first().len() == 0);
    reveal_with_fuel(written, 4);
    reveal_with_fuel(filled_at, 4);
    assert(written(pieces) =~= before + hole_text(double, hole) + behind);
    assert(filled_at(pieces, place) =~= before + value_at(place, hole) + behind);
}

/// A placeholder is filled with the paragraph, its data, the review or the page, in single or
/// double braces, and the text around it stays: for texts and values without opening braces.
pub proof fn law_each_placeholder_has_its_value(
    before: Seq<char>,
    behind: Seq<char>,
    place: Place,
    review_id: Seq<char>,
)
    requires
        braceless(before),
        braceless(behind),
        braceless(place.para_data@),
        braceless(review_id),
        place.review_id matches Some(id) ==> review_id == id@,
        place.review_id is None ==> review_id.len() == 0,
    ensures
        templated_at(before + "{paraIndex}"@ + behind, place) == before + decimal(
            place.para_index as int,
        ) + behind,
        templated_at(before + "{{paraIndex}}"@ + behind, place) == before + decimal(
            place.para_index as int,
        ) + behind,
        templated_at(before + "{paraData}"@ + behind, place) == before + place.para_data@ + behind,
        templated_at(before + "{{paraData}}"@ + behind, place) == before + place.para_data@
            + behind,
        templated_at(before + "{reviewId}"@ + behind, place) == before + review_id + behind,
        templated_at(before + "{{reviewId}}"@ + behind, place) == before + review_id + behind,
        templated_at(before + "{page}"@ + behind, place) == before + decimal(place.page as int)
            + behind,
        templated_at(before + "{{page}}"@ + behind, place) == before + decimal(place.page as int)
            + behind,
{
    assert(value_at(place, Hole::Review) =~= review_id);
    lemma_one_hole(before, behind, false, Hole::Index, place);
    lemma_one_hole(before, behind, true, Hole::Index, place);
    lemma_one_hole(before, behind, false, Hole::Data, place);
    lemma_one_hole(before, behind, true, Hole::Data, place);
    lemma_one_hole(before, behind, false, Hole::Review, place);
    lemma_one_hole(before, behind, true, Hole::Review, place);
    lemma_one_hole(before, behind, false, Hole::Page, place);
    lemma_one_hole(before, behind, true, Hole::Page, place);
}

} // verus!
