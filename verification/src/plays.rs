//! Dialogs: which questions a part of a run puts, one after the other, and what it comes to.

use crate::dialog::{
    ask_pairs, ask_ready, ask_response, ask_split, ask_text, ask_texts, fits,
    AnswerView, FetchResponseView, Outcome, QuestionView, UrlSuffixView,
};
use vstd::prelude::*;

verus! {

/// A question and what is answered.
pub type Line = (QuestionView, AnswerView);

/// A part of a run, as a function of the answers.
pub type Part<T> = spec_fn(Seq<AnswerView>) -> Outcome<T>;

/// The answers of the lines.
pub open spec fn answers_of(lines: Seq<Line>) -> Seq<AnswerView> {
    Seq::new(lines.len(), |i: int| lines[i].1)
}

/// Is this the dialog of the part, when these answers are given? It puts exactly the questions of
/// the lines, in their order, and comes to `end` with the answer of the last, whatever follows.
/// Each answer is of the kind that its question calls for.
pub open spec fn plays<T>(part: Part<T>, lines: Seq<Line>, end: T) -> bool {
    &&& forall|more: Seq<AnswerView>| #[trigger]
        part(answers_of(lines) + more) == Outcome::Done(end, more)
    &&& forall|k: int|
        0 <= k < lines.len() ==> part(answers_of(#[trigger] lines.take(k))) == Outcome::<T>::Ask(
            lines[k].0,
            Seq::empty(),
        )
    &&& forall|k: int| 0 <= k < lines.len() ==> fits((#[trigger] lines[k]).0, lines[k].1)
}

/// Two dialogs, one behind the other.
pub proof fn lemma_then<T, U>(
    first: Part<T>,
    lines: Seq<Line>,
    value: T,
    next: Part<U>,
    more_lines: Seq<Line>,
    end: U,
    whole: Part<U>,
)
    requires
        plays(first, lines, value),
        plays(next, more_lines, end),
        forall|answers: Seq<AnswerView>| #[trigger]
            whole(answers) == (match first(answers) {
                Outcome::Ask(question, left) => Outcome::Ask(question, left),
                Outcome::Fail(error) => Outcome::Fail(error),
                Outcome::Done(v, rest) => if v == value {
                    next(rest)
                } else {
                    whole(answers)
                },
            }),
    ensures
        plays(whole, lines + more_lines, end),
{
    let all = lines + more_lines;
    assert forall|more: Seq<AnswerView>| #[trigger]
        whole(answers_of(all) + more) == Outcome::Done(end, more) by {
        let rest = answers_of(more_lines) + more;
        assert(answers_of(all) + more =~= answers_of(lines) + rest);
        assert(first(answers_of(lines) + rest) == Outcome::Done(value, rest));
        assert(next(answers_of(more_lines) + more) == Outcome::Done(end, more));
    }
    assert forall|k: int| 0 <= k < all.len() implies whole(answers_of(#[trigger] all.take(k)))
        == Outcome::<U>::Ask(all[k].0, Seq::empty()) by {
        if k < lines.len() {
            assert(all.take(k) =~= lines.take(k));
            assert(first(answers_of(lines.take(k))) == Outcome::<T>::Ask(
                lines[k].0,
                Seq::empty(),
            ));
        } else {
            let j = k - lines.len();
            let rest = answers_of(more_lines.take(j));
            assert(answers_of(all.take(k)) =~= answers_of(lines) + rest);
            assert(first(answers_of(lines) + rest) == Outcome::Done(value, rest));
            assert(next(rest) == Outcome::<U>::Ask(more_lines[j].0, Seq::empty()));
        }
    }
    assert forall|k: int| 0 <= k < all.len() implies fits((#[trigger] all[k]).0, all[k].1) by {
        if k < lines.len() {
            assert(all[k] == lines[k]);
        } else {
            assert(all[k] == more_lines[k - lines.len()]);
        }
    }
}

/// Where nothing is asked, the dialog is empty.
pub proof fn lemma_silent<T>(part: Part<T>, end: T)
    requires
        forall|answers: Seq<AnswerView>| #[trigger] part(answers) == Outcome::Done(end, answers),
    ensures
        plays(part, Seq::empty(), end),
{
    assert forall|more: Seq<AnswerView>| #[trigger]
        part(answers_of(Seq::empty()) + more) == Outcome::Done(end, more) by {
        assert(answers_of(Seq::empty()) + more =~= more);
    }
}

/// One question that is answered.
pub proof fn lemma_one<T>(part: Part<T>, question: QuestionView, answer: AnswerView, end: T)
    requires
        fits(question, answer),
        part(Seq::empty()) == Outcome::<T>::Ask(question, Seq::empty()),
        forall|answers: Seq<AnswerView>|
            answers.len() > 0 && answers[0] == answer ==> #[trigger] part(answers)
                == Outcome::Done(end, answers.drop_first()),
    ensures
        plays(part, seq![(question, answer)], end),
{
    let lines = seq![(question, answer)];
    assert forall|more: Seq<AnswerView>| #[trigger]
        part(answers_of(lines) + more) == Outcome::Done(end, more) by {
        let all = answers_of(lines) + more;
        assert(all[0] == answer);
        assert(all.drop_first() =~= more);
    }
    assert(answers_of(lines.take(0)) =~= Seq::empty());
}

pub proof fn lemma_ready(question: QuestionView)
    requires
        fits(question, AnswerView::Ready),
    ensures
        plays(
            |a: Seq<AnswerView>| ask_ready(a, question),
            seq![(question, AnswerView::Ready)],
            (),
        ),
{
    lemma_one(|a: Seq<AnswerView>| ask_ready(a, question), question, AnswerView::Ready, ());
}

pub proof fn lemma_text(question: QuestionView, text: Seq<char>)
    requires
        fits(question, AnswerView::Text(text)),
    ensures
        plays(
            |a: Seq<AnswerView>| ask_text(a, question),
            seq![(question, AnswerView::Text(text))],
            text,
        ),
{
    lemma_one(
        |a: Seq<AnswerView>| ask_text(a, question),
        question,
        AnswerView::Text(text),
        text,
    );
}

pub proof fn lemma_texts(question: QuestionView, texts: Seq<Seq<char>>)
    requires
        fits(question, AnswerView::Texts(texts)),
    ensures
        plays(
            |a: Seq<AnswerView>| ask_texts(a, question),
            seq![(question, AnswerView::Texts(texts))],
            texts,
        ),
{
    lemma_one(
        |a: Seq<AnswerView>| ask_texts(a, question),
        question,
        AnswerView::Texts(texts),
        texts,
    );
}

pub proof fn lemma_pairs(question: QuestionView, pairs: Seq<(Seq<char>, Seq<char>)>)
    requires
        fits(question, AnswerView::Pairs(pairs)),
    ensures
        plays(
            |a: Seq<AnswerView>| ask_pairs(a, question),
            seq![(question, AnswerView::Pairs(pairs))],
            pairs,
        ),
{
    lemma_one(
        |a: Seq<AnswerView>| ask_pairs(a, question),
        question,
        AnswerView::Pairs(pairs),
        pairs,
    );
}

pub proof fn lemma_split(question: QuestionView, url: Seq<char>, suffix: UrlSuffixView)
    requires
        fits(question, AnswerView::Split(url, suffix)),
    ensures
        plays(
            |a: Seq<AnswerView>| ask_split(a, question),
            seq![(question, AnswerView::Split(url, suffix))],
            (url, suffix),
        ),
{
    lemma_one(
        |a: Seq<AnswerView>| ask_split(a, question),
        question,
        AnswerView::Split(url, suffix),
        (url, suffix),
    );
}

pub proof fn lemma_response(question: QuestionView, response: FetchResponseView)
    requires
        fits(question, AnswerView::Response(response)),
    ensures
        plays(
            |a: Seq<AnswerView>| ask_response(a, question),
            seq![(question, AnswerView::Response(response))],
            response,
        ),
{
    lemma_one(
        |a: Seq<AnswerView>| ask_response(a, question),
        question,
        AnswerView::Response(response),
        response,
    );
}

} // verus!
