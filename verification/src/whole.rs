//! A run as a whole: however the answers come in, what comes of a run is what its parts give when
//! they are carried out one behind the other on all the answers, in their order.

use crate::detail::{closed_detail, DetailState};
use crate::dialog::{fits, AnswerView, Outcome, Progress};
use crate::item::{read_item, read_items, with_item, ReadingView};
use crate::model::{
    empty_summary, DetailPageView, ReviewError, ReviewItemView, SummaryView,
};
use crate::page_run::{
    item_result, items_by, lemma_item_asks, opened, PageProgress, PageSetup, PageState, PageView,
};
use crate::replies::{closed_replies, replies_after, replies_progress};
use crate::steady::{
    lemma_front, steady_closed_detail, steady_entry, steady_item, steady_items, steady_opened,
};
use crate::summary::{
    entry_result, lemma_entry_asks, read_entry, summary_by, with_entry, EntryView, SummarySetup,
    SummaryState,
};
use vstd::prelude::*;

verus! {

/// The rows, one behind the other.
pub open spec fn joined(rows: Seq<Seq<AnswerView>>) -> Seq<AnswerView>
    decreases rows.len(),
{
    if rows.len() == 0 {
        Seq::empty()
    } else {
        rows[0] + joined(rows.drop_first())
    }
}

/// One more row comes behind the others.
proof fn lemma_joined_push(rows: Seq<Seq<AnswerView>>, row: Seq<AnswerView>)
    ensures
        joined(rows.push(row)) == joined(rows) + row,
    decreases rows.len(),
{
    let longer = rows.push(row);
    if rows.len() > 0 {
        lemma_joined_push(rows.drop_first(), row);
        assert(longer.drop_first() =~= rows.drop_first().push(row));
        assert(joined(longer) =~= joined(rows) + row);
    } else {
        assert(joined(longer.drop_first()) == Seq::<AnswerView>::empty());
        assert(joined(longer) =~= joined(rows) + row);
    }
}

/// A page and its items, from the request to the last item.
pub open spec fn whole_page(setup: PageSetup, answers: Seq<AnswerView>) -> Outcome<
    (PageView, Seq<ReviewItemView>),
> {
    opened(
        *setup.source,
        setup.place,
        setup.url_rule@,
        setup.list_rule@,
        answers,
    ).then_with(
        |page: PageView, rest: Seq<AnswerView>|
            read_items(
                PageState::fresh(setup).reading(page),
                page.texts,
                Seq::empty(),
                rest,
            ).then_with(
                |items: Seq<ReviewItemView>, rest: Seq<AnswerView>|
                    Outcome::Done((page, items), rest),
            ),
    )
}

proof fn steady_whole_page(
    setup: PageSetup,
    answers: Seq<AnswerView>,
    more: Seq<AnswerView>,
)
    ensures
        whole_page(setup, answers).steady(answers, more, whole_page(setup, answers + more)),
{
    let none = Seq::<ReviewItemView>::empty();
    let fresh = PageState::fresh(setup);
    let all = answers + more;
    let (source, url_rule, list_rule) = (*setup.source, setup.url_rule@, setup.list_rule@);
    steady_opened(source, setup.place, url_rule, list_rule, answers, more);
    if let Outcome::Done(page, rest) = opened(source, setup.place, url_rule, list_rule, answers) {
        steady_items(fresh.reading(page), page.texts, none, rest, more);
    }
    if let Outcome::Done(page, rest) = opened(source, setup.place, url_rule, list_rule, all) {
        steady_items(fresh.reading(page), page.texts, none, rest, Seq::empty());
    }
}

impl<'a> PageState<'a> {
    /// All the answers so far, in their order.
    pub open spec fn told(self) -> Seq<AnswerView> {
        self.head + (joined(self.rows) + self.current)
    }

    /// Every answer so far is used.
    pub open spec fn settled(self) -> bool {
        match self.page() {
            Outcome::Done(page, rest) => {
                &&& rest.len() == 0
                &&& self.rows.len() <= page.texts.len()
                &&& forall|i: int|
                    0 <= i < self.rows.len() ==> {
                        let item = read_item(
                            self.reading(page),
                            page.texts[i],
                            #[trigger] self.rows[i],
                        );
                        item is Done && item.left() == 0
                    }
                &&& if self.rows.len() < page.texts.len() {
                    !(self.item(page) is Done) && self.item(page).left() == 0
                } else {
                    self.current.len() == 0
                }
            },
            outcome => {
                &&& outcome.left() == 0
                &&& self.rows.len() == 0
                &&& self.current.len() == 0
            },
        }
    }
}

/// At the start there is no answer to be used.
pub proof fn law_fresh_page_is_settled(setup: PageSetup)
    ensures
        PageState::fresh(setup).settled(),
{
    let fresh = PageState::fresh(setup);
    steady_opened(
        *setup.source,
        setup.place,
        setup.url_rule@,
        setup.list_rule@,
        fresh.head,
        Seq::empty(),
    );
    if let Outcome::Done(page, _) = fresh.page() {
        if page.texts.len() > 0 {
            lemma_item_asks(fresh.reading(page), page.texts[0]);
        }
    }
}

/// An answer that was asked for is used as soon as it comes.
pub proof fn law_page_uses_each_answer(state: PageState, answer: AnswerView)
    requires
        state.settled(),
        state.progress() matches PageProgress::Ask(question) && fits(question, answer),
    ensures
        state.after(answer).settled(),
        state.after(answer).told() == state.told().push(answer),
{
    let setup = state.setup;
    let more = seq![answer];
    let after = state.after(answer);
    if let Outcome::Done(page, _) = state.page() {
        let text = page.texts[state.rows.len() as int];
        assert(state.current + more =~= state.current.push(answer));
        steady_item(state.reading(page), text, state.current, more);
        if after.rows.len() > state.rows.len() {
            lemma_joined_push(state.rows, state.current + more);
            if after.rows.len() < page.texts.len() {
                lemma_item_asks(state.reading(page), page.texts[after.rows.len() as int]);
            }
        }
        assert(after.told() =~= state.told().push(answer));
        assert forall|i: int| 0 <= i < after.rows.len() implies {
            let item = read_item(after.reading(page), page.texts[i], #[trigger] after.rows[i]);
            item is Done && item.left() == 0
        } by {
            if i < state.rows.len() {
                assert(after.rows[i] == state.rows[i]);
            } else {
                assert(after.rows[i] == state.current + more);
            }
        }
    } else {
        assert(state.head + more =~= state.head.push(answer));
        assert(after.told() =~= state.told().push(answer));
        steady_opened(
            *setup.source,
            setup.place,
            setup.url_rule@,
            setup.list_rule@,
            state.head,
            more,
        );
        if let Outcome::Done(page, _) = after.page() {
            if page.texts.len() > 0 {
                assert(after.current =~= Seq::empty());
                lemma_item_asks(after.reading(page), page.texts[0]);
            }
        }
    }
}

/// The items by their rows are the items on the rows put together.
proof fn lemma_rows(
    reading: ReadingView,
    texts: Seq<Seq<char>>,
    rows: Seq<Seq<AnswerView>>,
    done: int,
    more: Seq<AnswerView>,
)
    requires
        0 <= done <= rows.len() <= texts.len(),
        forall|i: int|
            0 <= i < rows.len() ==> {
                let item = read_item(reading, texts[i], #[trigger] rows[i]);
                item is Done && item.left() == 0
            },
    ensures
        read_items(
            reading,
            texts.skip(done),
            items_by(reading, texts, rows.take(done)),
            joined(rows.skip(done)) + more,
        ) == read_items(
            reading,
            texts.skip(rows.len() as int),
            items_by(reading, texts, rows),
            more,
        ),
    decreases rows.len() - done,
{
    let left = rows.skip(done);
    if done < rows.len() {
        reveal(read_item);
        let row = rows[done];
        let behind = joined(rows.skip(done + 1)) + more;
        lemma_rows(reading, texts, rows, done + 1, more);
        steady_item(reading, texts[done], row, behind);
        assert(left.drop_first() =~= rows.skip(done + 1));
        assert(joined(left) + more =~= row + behind);
        assert(texts.skip(done).drop_first() =~= texts.skip(done + 1));
        assert(texts.skip(done)[0] == texts[done]);
        assert(rows.take(done + 1).drop_last() =~= rows.take(done));
        assert(rows.take(done + 1).last() == row);
        let item = read_item(reading, texts[done], row);
        lemma_front(item->Done_1, behind);
        assert(items_by(reading, texts, rows.take(done + 1)) == with_item(
            items_by(reading, texts, rows.take(done)),
            item_result(item),
        ));
    } else {
        assert(rows.take(done) =~= rows);
        assert(joined(left) + more =~= more);
    }
}

/// How far a page has come is what its parts give on all the answers so far: the same question,
/// the same failure, or the same page and items, with no answer left over.
pub proof fn law_page_is_what_its_parts_give(state: PageState)
    requires
        state.settled(),
    ensures
        whole_page(state.setup, state.told()) == (match state.progress() {
            PageProgress::Ask(question) => Outcome::Ask(question, Seq::empty()),
            PageProgress::Fail(error) => Outcome::Fail(error),
            PageProgress::Read(page, items) => Outcome::Done((page, items), Seq::empty()),
        }),
{
    let setup = state.setup;
    let behind = joined(state.rows) + state.current;
    steady_opened(
        *setup.source,
        setup.place,
        setup.url_rule@,
        setup.list_rule@,
        state.head,
        behind,
    );
    match state.page() {
        Outcome::Done(page, rest) => {
            let reading = state.reading(page);
            let read = state.rows.len() as int;
            let items = items_by(reading, page.texts, state.rows);
            lemma_front(rest, behind);
            lemma_rows(reading, page.texts, state.rows, 0, state.current);
            assert(page.texts.skip(0) =~= page.texts);
            assert(state.rows.skip(0) =~= state.rows);
            assert(state.rows.take(0) =~= Seq::empty());
            reveal(read_item);
            if read < page.texts.len() {
                assert(page.texts.skip(read)[0] == page.texts[read]);
                match state.item(page) {
                    Outcome::Ask(_, left) => {
                        assert(left =~= Seq::empty());
                    },
                    _ => {},
                }
            } else {
                assert(page.texts.skip(read) =~= Seq::empty());
                assert(state.current =~= Seq::empty());
            }
        },
        Outcome::Ask(_, left) => {
            assert(behind =~= Seq::empty());
            assert(left + behind =~= Seq::empty());
        },
        Outcome::Fail(_) => {},
    }
}

/// A call that fails ends the page, whatever was asked for before.
pub proof fn law_failed_call_ends_page(state: PageState)
    requires
        state.settled(),
        state.progress() matches PageProgress::Ask(question) && fits(question, AnswerView::Failed),
    ensures
        state.after(AnswerView::Failed).progress() == PageProgress::Fail(ReviewError::CallFailed),
{
    let setup = state.setup;
    let more = seq![AnswerView::Failed];
    if let Outcome::Done(page, _) = state.page() {
        let text = page.texts[state.rows.len() as int];
        assert(state.current + more =~= state.current.push(AnswerView::Failed));
        steady_item(state.reading(page), text, state.current, more);
    } else {
        assert(state.head + more =~= state.head.push(AnswerView::Failed));
        steady_opened(
            *setup.source,
            setup.place,
            setup.url_rule@,
            setup.list_rule@,
            state.head,
            more,
        );
    }
}

/// The reviews of a paragraph, from the request to the address of the next page.
pub open spec fn whole_detail(setup: PageSetup, answers: Seq<AnswerView>) -> Outcome<
    DetailPageView,
> {
    whole_page(setup, answers).then_with(
        |read: (PageView, Seq<ReviewItemView>), rest: Seq<AnswerView>|
            closed_detail(*setup.rule, setup.place, read.0, read.1, rest),
    )
}

impl<'a> DetailState<'a> {
    /// All the answers so far, in their order.
    pub open spec fn told(self) -> Seq<AnswerView> {
        self.page.told() + self.tail
    }

    /// The page of reviews, closed with the answers behind those for its items.
    pub open spec fn closed(self, page: PageView, items: Seq<ReviewItemView>) -> Outcome<
        DetailPageView,
    > {
        closed_detail(*self.page.setup.rule, self.page.setup.place, page, items, self.tail)
    }

    /// Every answer so far is used.
    pub open spec fn settled(self) -> bool {
        &&& self.page.settled()
        &&& match self.page.progress() {
            PageProgress::Read(page, items) => self.closed(page, items).left() == 0,
            _ => self.tail.len() == 0,
        }
    }
}

/// A run that asks for reviews begins with no answer to be used.
pub proof fn law_fresh_detail_is_settled(state: DetailState)
    requires
        state.page == PageState::fresh(state.page.setup),
        state.tail.len() == 0,
    ensures
        state.settled(),
{
    law_fresh_page_is_settled(state.page.setup);
    if let PageProgress::Read(page, items) = state.page.progress() {
        steady_closed_detail(
            *state.page.setup.rule,
            state.page.setup.place,
            page,
            items,
            state.tail,
            Seq::empty(),
        );
    }
}

/// A run that asks for reviews uses each answer that it asked for as soon as it comes, and no
/// other.
pub proof fn law_detail_uses_each_answer(state: DetailState, answer: AnswerView)
    requires
        state.settled(),
    ensures
        state.after(answer).settled(),
        state.after(answer).told() == if state.progress().takes(answer) {
            state.told().push(answer)
        } else {
            state.told()
        },
{
    if state.progress().takes(answer) {
        let after = state.after(answer);
        if state.page.progress() is Ask {
            law_page_uses_each_answer(state.page, answer);
            assert(after.told() =~= state.told().push(answer));
            if let PageProgress::Read(page, items) = after.page.progress() {
                steady_closed_detail(
                    *after.page.setup.rule,
                    after.page.setup.place,
                    page,
                    items,
                    after.tail,
                    Seq::empty(),
                );
            }
        } else if let PageProgress::Read(page, items) = state.page.progress() {
            assert(after.tail =~= state.tail + seq![answer]);
            assert(after.told() =~= state.told().push(answer));
            steady_closed_detail(
                *state.page.setup.rule,
                state.page.setup.place,
                page,
                items,
                state.tail,
                seq![answer],
            );
        }
    }
}

/// How far a run that asks for reviews has come is what its parts give on all the answers so far.
pub proof fn law_detail_is_what_its_parts_give(state: DetailState)
    requires
        state.settled(),
    ensures
        whole_detail(state.page.setup, state.told()) == (match state.progress() {
            Progress::Ask(question) => Outcome::Ask(question, Seq::empty()),
            Progress::Fail(error) => Outcome::Fail(error),
            Progress::Done(detail) => Outcome::Done(detail, Seq::empty()),
        }),
{
    law_page_is_what_its_parts_give(state.page);
    steady_whole_page(state.page.setup, state.page.told(), state.tail);
    match state.page.progress() {
        PageProgress::Read(page, items) => {
            assert(Seq::<AnswerView>::empty() + state.tail =~= state.tail);
            match state.closed(page, items) {
                Outcome::Ask(_, left) => assert(left =~= Seq::empty()),
                Outcome::Done(_, rest) => assert(rest =~= Seq::empty()),
                Outcome::Fail(_) => {},
            }
        },
        _ => {
            assert(state.tail =~= Seq::empty());
            assert(state.told() =~= state.page.told());
        },
    }
}

/// A call that fails ends a run that asks for reviews, whatever was asked for before.
pub proof fn law_failed_call_ends_detail(state: DetailState)
    requires
        state.settled(),
        state.progress().takes(AnswerView::Failed),
    ensures
        state.after(AnswerView::Failed).progress() == Progress::<DetailPageView>::Fail(
            ReviewError::CallFailed,
        ),
{
    if state.page.progress() is Ask {
        law_failed_call_ends_page(state.page);
    } else if let PageProgress::Read(page, items) = state.page.progress() {
        let more = seq![AnswerView::Failed];
        assert(state.after(AnswerView::Failed).tail =~= state.tail + more);
        steady_closed_detail(
            *state.page.setup.rule,
            state.page.setup.place,
            page,
            items,
            state.tail,
            more,
        );
    }
}

/// A run that asks for replies uses each answer that it asked for as soon as it comes, and no
/// other.
pub proof fn law_replies_use_each_answer(state: PageState, answer: AnswerView)
    requires
        state.settled(),
    ensures
        replies_after(state, answer).settled(),
        replies_after(state, answer).told() == if replies_progress(state).takes(answer) {
            state.told().push(answer)
        } else {
            state.told()
        },
{
    if replies_progress(state).takes(answer) {
        law_page_uses_each_answer(state, answer);
    }
}

/// How far a run that asks for replies has come is what its parts give on all the answers so far.
pub proof fn law_replies_are_what_their_parts_give(state: PageState)
    requires
        state.settled(),
    ensures
        replies_progress(state) == (match whole_page(state.setup, state.told()) {
            Outcome::Ask(question, _) => Progress::Ask(question),
            Outcome::Fail(error) => Progress::Fail(error),
            Outcome::Done(read, _) => closed_replies(state.setup.place.page, read.0, read.1),
        }),
        whole_page(state.setup, state.told()).left() == 0,
{
    law_page_is_what_its_parts_give(state);
}

/// A call that fails ends a run that asks for replies, whatever was asked for before.
pub proof fn law_failed_call_ends_replies(state: PageState)
    requires
        state.settled(),
        replies_progress(state).takes(AnswerView::Failed),
    ensures
        replies_progress(replies_after(state, AnswerView::Failed)) == Progress::<
            DetailPageView,
        >::Fail(ReviewError::CallFailed),
{
    law_failed_call_ends_page(state);
}

/// The summary of the texts, in their order, from position `index` of the list on, added to
/// `before`.
pub open spec fn read_entries(
    setup: SummarySetup,
    index: int,
    texts: Seq<Seq<char>>,
    before: SummaryView,
    answers: Seq<AnswerView>,
) -> Outcome<SummaryView>
    decreases texts.len(),
{
    if texts.len() == 0 {
        Outcome::Done(before, answers)
    } else {
        read_entry(setup, index, texts[0], answers).then_with(
            |entry: Option<EntryView>, rest: Seq<AnswerView>|
                read_entries(
                    setup,
                    index + 1,
                    texts.drop_first(),
                    with_entry(before, entry),
                    rest,
                ),
        )
    }
}

/// The summary of a chapter, from the request to the last entry.
pub open spec fn whole_summary(setup: SummarySetup, answers: Seq<AnswerView>) -> Outcome<
    SummaryView,
> {
    opened(
        *setup.source,
        setup.place,
        setup.url_rule@,
        setup.list_rule@,
        answers,
    ).then_with(
        |page: PageView, rest: Seq<AnswerView>|
            read_entries(setup, 0, page.texts, empty_summary(), rest),
    )
}

impl<'a> SummaryState<'a> {
    /// All the answers so far, in their order.
    pub open spec fn told(self) -> Seq<AnswerView> {
        self.head + (joined(self.rows) + self.current)
    }

    /// Every answer so far is used.
    pub open spec fn settled(self) -> bool {
        if self.setup is None {
            self.told().len() == 0
        } else {
            match self.page() {
                Outcome::Done(page, rest) => {
                    &&& rest.len() == 0
                    &&& self.rows.len() <= page.texts.len()
                    &&& forall|i: int|
                        0 <= i < self.rows.len() ==> {
                            let entry = read_entry(
                                self.setup->0,
                                i,
                                page.texts[i],
                                #[trigger] self.rows[i],
                            );
                            entry is Done && entry.left() == 0
                        }
                    &&& if self.rows.len() < page.texts.len() {
                        !(self.entry(page) is Done) && self.entry(page).left() == 0
                    } else {
                        self.current.len() == 0
                    }
                },
                outcome => {
                    &&& outcome.left() == 0
                    &&& self.rows.len() == 0
                    &&& self.current.len() == 0
                },
            }
        }
    }
}

/// A run that asks for a summary begins with no answer to be used.
pub proof fn law_fresh_summary_is_settled(setup: Option<SummarySetup>)
    ensures
        SummaryState::fresh(setup).settled(),
{
    let fresh = SummaryState::fresh(setup);
    if let Some(setup) = setup {
        steady_opened(
            *setup.source,
            setup.place,
            setup.url_rule@,
            setup.list_rule@,
            fresh.head,
            Seq::empty(),
        );
        if let Outcome::Done(page, _) = fresh.page() {
            if page.texts.len() > 0 {
                lemma_entry_asks(setup, 0, page.texts[0]);
                steady_entry(setup, 0, page.texts[0], Seq::empty(), Seq::empty());
            }
        }
    }
}

/// A run that asks for a summary uses each answer that it asked for as soon as it comes, and no
/// other.
pub proof fn law_summary_uses_each_answer(state: SummaryState, answer: AnswerView)
    requires
        state.settled(),
    ensures
        state.after(answer).settled(),
        state.after(answer).told() == if state.progress().takes(answer) {
            state.told().push(answer)
        } else {
            state.told()
        },
{
    if state.progress().takes(answer) {
        let setup = state.setup->0;
        let more = seq![answer];
        let after = state.after(answer);
        if let Outcome::Done(page, _) = state.page() {
            let read = state.rows.len() as int;
            assert(state.current + more =~= state.current.push(answer));
            steady_entry(setup, read, page.texts[read], state.current, more);
            if after.rows.len() > state.rows.len() {
                lemma_joined_push(state.rows, state.current + more);
                if after.rows.len() < page.texts.len() {
                    let next = after.rows.len() as int;
                    lemma_entry_asks(setup, next, page.texts[next]);
                    steady_entry(setup, next, page.texts[next], Seq::empty(), Seq::empty());
                }
            }
            assert(after.told() =~= state.told().push(answer));
            assert forall|i: int| 0 <= i < after.rows.len() implies {
                let entry = read_entry(setup, i, page.texts[i], #[trigger] after.rows[i]);
                entry is Done && entry.left() == 0
            } by {
                if i < state.rows.len() {
                    assert(after.rows[i] == state.rows[i]);
                } else {
                    assert(after.rows[i] == state.current + more);
                }
            }
        } else {
            assert(state.head + more =~= state.head.push(answer));
            assert(after.told() =~= state.told().push(answer));
            steady_opened(
                *setup.source,
                setup.place,
                setup.url_rule@,
                setup.list_rule@,
                state.head,
                more,
            );
            if let Outcome::Done(page, _) = after.page() {
                if page.texts.len() > 0 {
                    assert(after.current =~= Seq::empty());
                    lemma_entry_asks(setup, 0, page.texts[0]);
                    steady_entry(setup, 0, page.texts[0], Seq::empty(), Seq::empty());
                }
            }
        }
    }
}

/// The summary by its rows is the summary on the rows put together.
proof fn lemma_entry_rows(
    setup: SummarySetup,
    texts: Seq<Seq<char>>,
    rows: Seq<Seq<AnswerView>>,
    done: int,
    more: Seq<AnswerView>,
)
    requires
        0 <= done <= rows.len() <= texts.len(),
        forall|i: int|
            0 <= i < rows.len() ==> {
                let entry = read_entry(setup, i, texts[i], #[trigger] rows[i]);
                entry is Done && entry.left() == 0
            },
    ensures
        read_entries(
            setup,
            done,
            texts.skip(done),
            summary_by(setup, texts, rows.take(done)),
            joined(rows.skip(done)) + more,
        ) == read_entries(
            setup,
            rows.len() as int,
            texts.skip(rows.len() as int),
            summary_by(setup, texts, rows),
            more,
        ),
    decreases rows.len() - done,
{
    let left = rows.skip(done);
    if done < rows.len() {
        let row = rows[done];
        let behind = joined(rows.skip(done + 1)) + more;
        lemma_entry_rows(setup, texts, rows, done + 1, more);
        steady_entry(setup, done, texts[done], row, behind);
        assert(left.drop_first() =~= rows.skip(done + 1));
        assert(joined(left) + more =~= row + behind);
        assert(texts.skip(done).drop_first() =~= texts.skip(done + 1));
        assert(texts.skip(done)[0] == texts[done]);
        assert(rows.take(done + 1).drop_last() =~= rows.take(done));
        assert(rows.take(done + 1).last() == row);
        let entry = read_entry(setup, done, texts[done], row);
        lemma_front(entry->Done_1, behind);
        assert(summary_by(setup, texts, rows.take(done + 1)) == with_entry(
            summary_by(setup, texts, rows.take(done)),
            entry_result(entry),
        ));
    } else {
        assert(rows.take(done) =~= rows);
        assert(joined(left) + more =~= more);
    }
}

/// How far a run that asks for a summary has come is what its parts give on all the answers so
/// far.
pub proof fn law_summary_is_what_its_parts_give(state: SummaryState)
    requires
        state.settled(),
        state.setup is Some,
    ensures
        whole_summary(state.setup->0, state.told()) == (match state.progress() {
            Progress::Ask(question) => Outcome::Ask(question, Seq::empty()),
            Progress::Fail(error) => Outcome::Fail(error),
            Progress::Done(summary) => Outcome::Done(summary, Seq::empty()),
        }),
{
    let setup = state.setup->0;
    let behind = joined(state.rows) + state.current;
    steady_opened(
        *setup.source,
        setup.place,
        setup.url_rule@,
        setup.list_rule@,
        state.head,
        behind,
    );
    match state.page() {
        Outcome::Done(page, rest) => {
            let read = state.rows.len() as int;
            lemma_front(rest, behind);
            lemma_entry_rows(setup, page.texts, state.rows, 0, state.current);
            assert(page.texts.skip(0) =~= page.texts);
            assert(state.rows.skip(0) =~= state.rows);
            assert(state.rows.take(0) =~= Seq::empty());
            if read < page.texts.len() {
                assert(page.texts.skip(read)[0] == page.texts[read]);
                match state.entry(page) {
                    Outcome::Ask(_, left) => {
                        assert(left =~= Seq::empty());
                    },
                    _ => {},
                }
            } else {
                assert(page.texts.skip(read) =~= Seq::empty());
                assert(state.current =~= Seq::empty());
            }
        },
        Outcome::Ask(_, left) => {
            assert(behind =~= Seq::empty());
            assert(left + behind =~= Seq::empty());
        },
        Outcome::Fail(_) => {},
    }
}

/// A call that fails ends a run that asks for a summary, whatever was asked for before.
pub proof fn law_failed_call_ends_summary(state: SummaryState)
    requires
        state.settled(),
        state.progress().takes(AnswerView::Failed),
    ensures
        state.after(AnswerView::Failed).progress() == Progress::<SummaryView>::Fail(
            ReviewError::CallFailed,
        ),
{
    let setup = state.setup->0;
    let more = seq![AnswerView::Failed];
    if let Outcome::Done(page, _) = state.page() {
        let read = state.rows.len() as int;
        assert(state.current + more =~= state.current.push(AnswerView::Failed));
        steady_entry(setup, read, page.texts[read], state.current, more);
    } else {
        assert(state.head + more =~= state.head.push(AnswerView::Failed));
        steady_opened(
            *setup.source,
            setup.place,
            setup.url_rule@,
            setup.list_rule@,
            state.head,
            more,
        );
    }
}

} // verus!
