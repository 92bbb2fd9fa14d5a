//! Reading reviews and their replies, one by one.

use crate::content::{
    badges_of, content_fields, fields_of, float_text, legible_text, nonempty, protocol_of,
    read_protocol, some_text, split_badges, undecided, ContentProtocol, ContentProtocolView,
};
use crate::dialog::{
    ask_number, ask_ready, ask_text, ask_texts, take_number, take_ready, take_text, take_texts,
    Answer, AnswerView, Outcome, Question, QuestionView, Step, INNER_ITEM_LEVEL, INNER_LEVEL,
    ITEM_LEVEL,
};
use crate::laws::{lemma_completed_is_legible, lemma_found_is_legible};
use crate::model::{filled, filled_in, filled_in_or, ReviewItem, ReviewItemView, ReviewRule};
use crate::text::{trim, trimmed};
use vstd::prelude::*;
use vstd::string::*;

verus! {

/// What an item is: a review, a reply on a page of replies, or a reply that comes with its review.
#[derive(Debug, Clone, Copy, PartialEq, Eq, Structural)]
pub enum Role {
    Review,
    Reply,
    InnerReply,
}

/// How items are read: by which rule, and as what.
#[derive(Debug, Clone, Copy)]
pub struct Reading<'a> {
    pub rule: &'a ReviewRule,
    pub base_url: &'a str,
    pub role: Role,
    pub content_rule: &'a str,
}

/// How items are read, as a mathematical value.
#[verifier::ext_equal]
pub struct ReadingView {
    pub rule: ReviewRule,
    pub base_url: Seq<char>,
    pub role: Role,
    pub content_rule: Seq<char>,
}

impl<'a> DeepView for Reading<'a> {
    type V = ReadingView;

    open spec fn deep_view(&self) -> ReadingView {
        ReadingView {
            rule: *self.rule,
            base_url: self.base_url@,
            role: self.role,
            content_rule: self.content_rule@,
        }
    }
}

impl<'a> Reading<'a> {
    /// The level of the variables of an item.
    fn level(&self) -> (r: u8)
        ensures
            r == self.deep_view().level(),
    {
        match self.role {
            Role::InnerReply => INNER_ITEM_LEVEL,
            _ => ITEM_LEVEL,
        }
    }

    /// Are the items replies?
    fn is_reply(&self) -> (r: bool)
        ensures
            r == self.deep_view().is_reply(),
    {
        match self.role {
            Role::Review => false,
            _ => true,
        }
    }
}

impl ReadingView {
    /// Are the items replies?
    pub open spec fn is_reply(self) -> bool {
        !(self.role is Review)
    }

    /// The level of the variables of an item.
    pub open spec fn level(self) -> u8 {
        match self.role {
            Role::InnerReply => INNER_ITEM_LEVEL,
            _ => ITEM_LEVEL,
        }
    }

    /// How the id of an item is found.
    pub open spec fn id_rule(self) -> Option<Seq<char>> {
        if self.is_reply() {
            self.rule.reply_id_rule.deep_view()
        } else {
            self.rule.detail_id_rule.deep_view()
        }
    }

    /// How the picture of an item's author is found.
    pub open spec fn avatar_rule(self) -> Option<Seq<char>> {
        if self.is_reply() {
            self.rule.reply_avatar_rule.deep_view()
        } else {
            self.rule.detail_avatar_rule.deep_view()
        }
    }

    /// How the name of an item's author is found.
    pub open spec fn name_rule(self) -> Option<Seq<char>> {
        if self.is_reply() {
            self.rule.reply_name_rule.deep_view()
        } else {
            self.rule.detail_name_rule.deep_view()
        }
    }

    /// How the badges of an item's author are found.
    pub open spec fn badge_rule(self) -> Option<Seq<char>> {
        if self.is_reply() {
            self.rule.reply_badge_rule.deep_view()
        } else {
            self.rule.detail_badge_rule.deep_view()
        }
    }

    /// How replies are told apart where they come with the review itself: on a page of reviews of
    /// a source that has no page of replies.
    pub open spec fn nested_rule(self) -> Option<Seq<char>> {
        if !self.is_reply() && filled_in(self.rule.review_quote_url) is None {
            self.rule.reply_list_rule.deep_view()
        } else {
            None
        }
    }

    /// How replies that come with the review itself are read.
    pub open spec fn nested(self) -> ReadingView {
        ReadingView {
            role: Role::InnerReply,
            content_rule: match filled_in_or(self.rule.reply_content_rule, self.rule.content_rule) {
                Some(rule) => rule,
                None => self.content_rule,
            },
            ..self
        }
    }
}

/// What a rule finds in a text, without white space on either side; nothing where there is no rule.
#[verifier::opaque]
pub open spec fn field_of(
    text: Seq<char>,
    rule: Option<Seq<char>>,
    level: u8,
    answers: Seq<AnswerView>,
) -> Outcome<Seq<char>> {
    match rule {
        Some(rule) => ask_text(answers, QuestionView::Field { level, rule, text }).then_with(
            |found: Seq<char>, rest: Seq<AnswerView>| Outcome::Done(trimmed(found), rest),
        ),
        None => Outcome::Done(Seq::empty(), answers),
    }
}

/// What a rule finds in a text, without white space on either side; nothing where there is no rule.
pub fn extract_field(
    text: &str,
    rule: Option<&str>,
    level: u8,
    given: &Vec<Answer>,
    pos: usize,
) -> (r: Step<String>)
    requires
        pos <= given.len(),
    ensures
        r.agrees(
            given.deep_view(),
            field_of(text@, rule.deep_view(), level, given.deep_view().skip(pos as int)),
        ),
{
    proof {
        reveal(field_of);
    }
    match rule {
        Some(rule) => {
            let question = Question::Field { level, rule: rule.to_owned(), text: text.to_owned() };
            match take_text(given, pos, question) {
                Step::Ask(question) => Step::Ask(question),
                Step::Fail(error) => Step::Fail(error),
                Step::Done(found, pos) => Step::Done(trim(found.as_str()).to_owned(), pos),
            }
        },
        None => Step::Done(String::new(), pos),
    }
}

/// The parts of a text that a rule lists.
pub fn extract_elements(
    rule: &str,
    text: &str,
    level: u8,
    given: &Vec<Answer>,
    pos: usize,
) -> (r: Step<Vec<String>>)
    requires
        pos <= given.len(),
    ensures
        r.agrees(
            given.deep_view(),
            ask_texts(
                given.deep_view().skip(pos as int),
                QuestionView::Elements { level, rule: rule@, text: text@ },
            ),
        ),
{
    take_texts(
        given,
        pos,
        Question::Elements { level, rule: rule.to_owned(), text: text.to_owned() },
    )
}

/// An address, where there is one, made absolute.
#[verifier::opaque]
pub open spec fn resolved(
    url: Option<Seq<char>>,
    base: Seq<char>,
    answers: Seq<AnswerView>,
) -> Outcome<Option<Seq<char>>> {
    match url {
        Some(url) => ask_text(answers, QuestionView::Resolve { url, base }).then_with(
            |url: Seq<char>, rest: Seq<AnswerView>| Outcome::Done(Some(url), rest),
        ),
        None => Outcome::Done(None, answers),
    }
}

/// An address, where there is one, made absolute.
pub fn resolve(url: Option<String>, base: &str, given: &Vec<Answer>, pos: usize) -> (r: Step<
    Option<String>,
>)
    requires
        pos <= given.len(),
    ensures
        r.agrees(
            given.deep_view(),
            resolved(url.deep_view(), base@, given.deep_view().skip(pos as int)),
        ),
{
    proof {
        reveal(resolved);
    }
    match url {
        Some(url) => {
            let question = Question::Resolve { url, base: base.to_owned() };
            match take_text(given, pos, question) {
                Step::Ask(question) => Step::Ask(question),
                Step::Fail(error) => Step::Fail(error),
                Step::Done(url, pos) => Step::Done(Some(url), pos),
            }
        },
        None => Step::Done(None, pos),
    }
}

/// What a text gives as a floating-point number, where that is asked for.
pub open spec fn float_of(text: Option<Seq<char>>, answers: Seq<AnswerView>) -> Outcome<
    Option<i64>,
> {
    match text {
        Some(text) => ask_number(answers, QuestionView::ReadFloat(text)),
        None => Outcome::Done(None, answers),
    }
}

/// What a text gives as a floating-point number, where that is asked for.
pub fn read_float(text: Option<String>, given: &Vec<Answer>, pos: usize) -> (r: Step<Option<i64>>)
    requires
        pos <= given.len(),
    ensures
        r.agrees(
            given.deep_view(),
            float_of(text.deep_view(), given.deep_view().skip(pos as int)),
        ),
{
    match text {
        Some(text) => take_number(given, pos, Question::ReadFloat(text)),
        None => Step::Done(None, pos),
    }
}

/// What a content says as a JSON object, where it is one and says anything.
#[verifier::opaque]
pub open spec fn said_by(raw: Seq<char>, answers: Seq<AnswerView>) -> Outcome<
    Option<ContentProtocolView>,
> {
    match fields_of(raw) {
        Some(fields) => float_of(float_text(fields.like_count), answers).then_with(
            |like: Option<i64>, rest: Seq<AnswerView>|
                float_of(float_text(fields.reply_count), rest).then_with(
                    |reply: Option<i64>, rest: Seq<AnswerView>|
                        Outcome::Done(protocol_of(fields, like, reply), rest),
                ),
        ),
        None => Outcome::Done(None, answers),
    }
}

/// What a content says as a JSON object, where it is one and says anything.
fn read_said(raw: &str, given: &Vec<Answer>, pos: usize) -> (r: Step<Option<ContentProtocol>>)
    requires
        pos <= given.len(),
    ensures
        r.agrees(given.deep_view(), said_by(raw@, given.deep_view().skip(pos as int))),
        r matches Step::Done(Some(said), _) ==> said.deep_view().legible(),
{
    proof {
        reveal(said_by);
    }
    match content_fields(raw) {
        Some(fields) => match read_float(undecided(fields.like_count.as_ref()), given, pos) {
            Step::Ask(question) => Step::Ask(question),
            Step::Fail(error) => Step::Fail(error),
            Step::Done(like, pos) => match read_float(
                undecided(fields.reply_count.as_ref()),
                given,
                pos,
            ) {
                Step::Ask(question) => Step::Ask(question),
                Step::Fail(error) => Step::Fail(error),
                Step::Done(reply, pos) => Step::Done(read_protocol(&fields, like, reply), pos),
            },
        },
        None => Step::Done(None, pos),
    }
}

/// What is found of an item before its content is looked into.
#[derive(Debug)]
pub struct Found {
    pub id: Option<String>,
    pub avatar: Option<String>,
    pub name: Option<String>,
    pub badges: Vec<String>,
    pub raw_content: String,
}

/// What is found of an item, as a mathematical value.
#[verifier::ext_equal]
pub struct FoundView {
    pub id: Option<Seq<char>>,
    pub avatar: Option<Seq<char>>,
    pub name: Option<Seq<char>>,
    pub badges: Seq<Seq<char>>,
    pub raw_content: Seq<char>,
}

impl DeepView for Found {
    type V = FoundView;

    open spec fn deep_view(&self) -> FoundView {
        FoundView {
            id: self.id.deep_view(),
            avatar: self.avatar.deep_view(),
            name: self.name.deep_view(),
            badges: self.badges.deep_view(),
            raw_content: self.raw_content@,
        }
    }
}

/// The picture of an item's author, made absolute.
#[verifier::opaque]
pub open spec fn avatar_of(
    reading: ReadingView,
    item: Seq<char>,
    answers: Seq<AnswerView>,
) -> Outcome<Option<Seq<char>>> {
    field_of(item, reading.avatar_rule(), reading.level(), answers).then_with(
        |avatar: Seq<char>, rest: Seq<AnswerView>|
            resolved(some_text(avatar), reading.base_url, rest),
    )
}

/// The id of an item, and the picture and the name of its author.
#[verifier::opaque]
pub open spec fn author_of(
    reading: ReadingView,
    item: Seq<char>,
    answers: Seq<AnswerView>,
) -> Outcome<(Option<Seq<char>>, Option<Seq<char>>, Option<Seq<char>>)> {
    field_of(item, reading.id_rule(), reading.level(), answers).then_with(
        |id: Seq<char>, rest: Seq<AnswerView>|
            avatar_of(reading, item, rest).then_with(
                |avatar: Option<Seq<char>>, rest: Seq<AnswerView>|
                    field_of(item, reading.name_rule(), reading.level(), rest).then_with(
                        |name: Seq<char>, rest: Seq<AnswerView>|
                            Outcome::Done((some_text(id), avatar, some_text(name)), rest),
                    ),
            ),
    )
}

/// What the rules find of an item: its id, its author's picture, name and badges, and its content.
#[verifier::opaque]
pub open spec fn found_in(
    reading: ReadingView,
    item: Seq<char>,
    answers: Seq<AnswerView>,
) -> Outcome<FoundView> {
    let level = reading.level();
    ask_ready(answers, QuestionView::ForkVars { level }).then_with(
        |done: (), rest: Seq<AnswerView>|
            author_of(reading, item, rest).then_with(
                |author: (Option<Seq<char>>, Option<Seq<char>>, Option<Seq<char>>),
                    rest: Seq<AnswerView>|
                    field_of(item, reading.badge_rule(), level, rest).then_with(
                        |badges: Seq<char>, rest: Seq<AnswerView>|
                            field_of(item, Some(reading.content_rule), level, rest).then_with(
                                |raw_content: Seq<char>, rest: Seq<AnswerView>|
                                    Outcome::Done(
                                        FoundView {
                                            id: author.0,
                                            avatar: author.1,
                                            name: author.2,
                                            badges: badges_of(badges),
                                            raw_content,
                                        },
                                        rest,
                                    ),
                            ),
                    ),
            ),
    )
}

/// A setting as a text.
fn setting(s: &Option<String>) -> (r: Option<&str>)
    ensures
        r.deep_view() == s.deep_view(),
{
    match s {
        Some(s) => Some(s.as_str()),
        None => None,
    }
}

/// One setting for replies, another for reviews.
fn choose_setting<'a>(
    is_reply: bool,
    reply: &'a Option<String>,
    detail: &'a Option<String>,
) -> (r: Option<&'a str>)
    ensures
        r.deep_view() == if is_reply {
            reply.deep_view()
        } else {
            detail.deep_view()
        },
{
    if is_reply {
        setting(reply)
    } else {
        setting(detail)
    }
}

/// What the rules find of an item.
fn find_in(reading: &Reading, item: &str, given: &Vec<Answer>, pos: usize) -> (r: Step<Found>)
    requires
        pos <= given.len(),
    ensures
        r.agrees(
            given.deep_view(),
            found_in(reading.deep_view(), item@, given.deep_view().skip(pos as int)),
        ),
{
    proof {
        reveal(found_in);
        reveal(author_of);
        reveal(avatar_of);
    }
    let rule = reading.rule;
    let level = reading.level();
    let is_reply = reading.is_reply();
    let pos = match take_ready(given, pos, Question::ForkVars { level }) {
        Step::Ask(question) => return Step::Ask(question),
        Step::Fail(error) => return Step::Fail(error),
        Step::Done(_, pos) => pos,
    };
    let id_rule = choose_setting(is_reply, &rule.reply_id_rule, &rule.detail_id_rule);
    let (id, pos) = match extract_field(item, id_rule, level, given, pos) {
        Step::Ask(question) => return Step::Ask(question),
        Step::Fail(error) => return Step::Fail(error),
        Step::Done(id, pos) => (id, pos),
    };
    let avatar_rule = choose_setting(is_reply, &rule.reply_avatar_rule, &rule.detail_avatar_rule);
    let (avatar, pos) = match extract_field(item, avatar_rule, level, given, pos) {
        Step::Ask(question) => return Step::Ask(question),
        Step::Fail(error) => return Step::Fail(error),
        Step::Done(avatar, pos) => (avatar, pos),
    };
    let (avatar, pos) = match resolve(nonempty(avatar), reading.base_url, given, pos) {
        Step::Ask(question) => return Step::Ask(question),
        Step::Fail(error) => return Step::Fail(error),
        Step::Done(avatar, pos) => (avatar, pos),
    };
    let name_rule = choose_setting(is_reply, &rule.reply_name_rule, &rule.detail_name_rule);
    let (name, pos) = match extract_field(item, name_rule, level, given, pos) {
        Step::Ask(question) => return Step::Ask(question),
        Step::Fail(error) => return Step::Fail(error),
        Step::Done(name, pos) => (name, pos),
    };
    let badge_rule = choose_setting(is_reply, &rule.reply_badge_rule, &rule.detail_badge_rule);
    let (badges, pos) = match extract_field(item, badge_rule, level, given, pos) {
        Step::Ask(question) => return Step::Ask(question),
        Step::Fail(error) => return Step::Fail(error),
        Step::Done(badges, pos) => (badges, pos),
    };
    match extract_field(item, Some(reading.content_rule), level, given, pos) {
        Step::Ask(question) => Step::Ask(question),
        Step::Fail(error) => Step::Fail(error),
        Step::Done(raw_content, pos) => {
            let found = Found {
                id: nonempty(id),
                avatar,
                name: nonempty(name),
                badges: split_badges(badges),
                raw_content,
            };
            Step::Done(found, pos)
        },
    }
}

/// A content object that says nothing.
pub open spec fn nothing_said() -> ContentProtocolView {
    ContentProtocolView {
        text: None,
        reply_to_name: None,
        image: None,
        audio: None,
        time: None,
        like_count: None,
        reply_count: None,
    }
}

/// The content of an item: what its content object says, else its content as it is, where there is
/// any.
pub open spec fn content_of(
    said: Option<ContentProtocolView>,
    raw_content: Seq<char>,
) -> Option<Seq<char>> {
    match said {
        Some(said) => said.text,
        None => if raw_content.len() > 0 {
            Some(raw_content)
        } else {
            None
        },
    }
}

/// When an item was posted: as its content object says, else as the rule finds it.
pub open spec fn time_of(
    reading: ReadingView,
    item: Seq<char>,
    said: Option<Seq<char>>,
    answers: Seq<AnswerView>,
) -> Outcome<Option<Seq<char>>> {
    match said {
        Some(time) => Outcome::Done(Some(time), answers),
        None => field_of(
            item,
            reading.rule.post_time_rule.deep_view(),
            reading.level(),
            answers,
        ).then_with(
            |time: Seq<char>, rest: Seq<AnswerView>| Outcome::Done(some_text(time), rest),
        ),
    }
}

/// The item that was found, without replies. One without a name, a content, a picture and a sound
/// is no item.
pub open spec fn item_of(
    is_reply: bool,
    found: FoundView,
    said: Option<ContentProtocolView>,
    image_url: Option<Seq<char>>,
    audio_url: Option<Seq<char>>,
    time: Option<Seq<char>>,
) -> Option<ReviewItemView> {
    let content = content_of(said, found.raw_content);
    let more = match said {
        Some(said) => said,
        None => nothing_said(),
    };
    if found.name is None && content is None && image_url is None && audio_url is None {
        None
    } else {
        Some(
            ReviewItemView {
                id: found.id,
                avatar: found.avatar,
                name: found.name,
                reply_to_name: more.reply_to_name,
                badges: found.badges,
                content,
                image_url,
                audio_url,
                time,
                like_count: more.like_count,
                reply_count: if is_reply {
                    None
                } else {
                    more.reply_count
                },
                replies: Seq::empty(),
            },
        )
    }
}

/// An item without the replies that may come with it.
#[verifier::opaque]
pub open spec fn single_item(
    reading: ReadingView,
    item: Seq<char>,
    answers: Seq<AnswerView>,
) -> Outcome<Option<ReviewItemView>> {
    found_in(reading, item, answers).then_with(
        |found: FoundView, rest: Seq<AnswerView>|
            said_by(found.raw_content, rest).then_with(
                |said: Option<ContentProtocolView>, rest: Seq<AnswerView>|
                    completed(reading, item, found, said, rest),
            ),
    )
}

/// The item that was found, with what its content object says.
#[verifier::opaque]
pub open spec fn completed(
    reading: ReadingView,
    item: Seq<char>,
    found: FoundView,
    said: Option<ContentProtocolView>,
    answers: Seq<AnswerView>,
) -> Outcome<Option<ReviewItemView>> {
    let more = match said {
        Some(said) => said,
        None => nothing_said(),
    };
    resolved(more.image, reading.base_url, answers).then_with(
        |image: Option<Seq<char>>, rest: Seq<AnswerView>|
            resolved(more.audio, reading.base_url, rest).then_with(
                |audio: Option<Seq<char>>, rest: Seq<AnswerView>|
                    time_of(reading, item, more.time, rest).then_with(
                        |time: Option<Seq<char>>, rest: Seq<AnswerView>|
                            Outcome::Done(
                                item_of(reading.is_reply(), found, said, image, audio, time),
                                rest,
                            ),
                    ),
            ),
    )
}

/// How far down replies may come with an item.
pub open spec fn depth(reading: ReadingView) -> nat {
    if reading.is_reply() {
        0
    } else {
        1
    }
}

/// `items` with one more, where there is one.
pub open spec fn with_item(
    items: Seq<ReviewItemView>,
    item: Option<ReviewItemView>,
) -> Seq<ReviewItemView> {
    match item {
        Some(item) => items.push(item),
        None => items,
    }
}

/// The replies that come with an item, told apart.
pub open spec fn nested_texts(
    reading: ReadingView,
    rule: Seq<char>,
    item: Seq<char>,
    answers: Seq<AnswerView>,
) -> Outcome<Seq<Seq<char>>> {
    let level = INNER_LEVEL;
    ask_ready(answers, QuestionView::ForkVars { level }).then_with(
        |done: (), rest: Seq<AnswerView>|
            ask_texts(rest, QuestionView::Elements { level, rule, text: item }),
    )
}

/// An item, with the replies that come with it.
#[verifier::opaque]
pub open spec fn read_item(
    reading: ReadingView,
    item: Seq<char>,
    answers: Seq<AnswerView>,
) -> Outcome<Option<ReviewItemView>>
    decreases depth(reading), 0nat,
{
    single_item(reading, item, answers).then_with(
        |single: Option<ReviewItemView>, rest: Seq<AnswerView>|
            match (single, reading.nested_rule()) {
                (Some(single), Some(rule)) => nested_texts(reading, rule, item, rest).then_with(
                    |texts: Seq<Seq<char>>, rest: Seq<AnswerView>|
                        read_items(reading.nested(), texts, Seq::empty(), rest).then_with(
                            |replies: Seq<ReviewItemView>, rest: Seq<AnswerView>|
                                Outcome::Done(Some(ReviewItemView { replies, ..single }), rest),
                        ),
                ),
                _ => Outcome::Done(single, rest),
            },
    )
}

/// The items that the texts are, in their order, behind those in `before`.
pub open spec fn read_items(
    reading: ReadingView,
    texts: Seq<Seq<char>>,
    before: Seq<ReviewItemView>,
    answers: Seq<AnswerView>,
) -> Outcome<Seq<ReviewItemView>>
    decreases depth(reading), texts.len(),
{
    if texts.len() == 0 {
        Outcome::Done(before, answers)
    } else {
        read_item(reading, texts[0], answers).then_with(
            |item: Option<ReviewItemView>, rest: Seq<AnswerView>|
                read_items(reading, texts.drop_first(), with_item(before, item), rest),
        )
    }
}

/// Can the texts of an item be read, its replies left aside? None of them is blank or has white
/// space on either side.
pub open spec fn legible_alone(item: ReviewItemView) -> bool {
    &&& legible_text(item.id)
    &&& legible_text(item.name)
    &&& legible_text(item.reply_to_name)
    &&& legible_text(item.content)
    &&& legible_text(item.time)
    &&& forall|i: int| 0 <= i < item.badges.len() ==> legible_text(Some(#[trigger] item.badges[i]))
}

/// Can the texts of an item and of its replies be read?
pub open spec fn legible(item: ReviewItemView) -> bool {
    &&& legible_alone(item)
    &&& forall|i: int| 0 <= i < item.replies.len() ==> legible_alone(#[trigger] item.replies[i])
}

/// Can the texts of the items be read?
pub open spec fn all_legible(items: Seq<ReviewItemView>) -> bool {
    forall|i: int| 0 <= i < items.len() ==> legible(#[trigger] items[i])
}

/// Reads an item without the replies that may come with it.
fn parse_single(reading: &Reading, item: &str, given: &Vec<Answer>, pos: usize) -> (r: Step<
    Option<ReviewItem>,
>)
    requires
        pos <= given.len(),
    ensures
        r.agrees(
            given.deep_view(),
            single_item(reading.deep_view(), item@, given.deep_view().skip(pos as int)),
        ),
        r matches Step::Done(Some(item), _) ==> item.replies@.len() == 0,
        r matches Step::Done(Some(item), _) ==> legible_alone(item.deep_view()),
{
    proof {
        reveal(single_item);
        reveal(completed);
        lemma_found_is_legible(reading.deep_view(), item@, given.deep_view().skip(pos as int));
    }
    let base = reading.base_url;
    let (found, pos) = match find_in(reading, item, given, pos) {
        Step::Ask(question) => return Step::Ask(question),
        Step::Fail(error) => return Step::Fail(error),
        Step::Done(found, pos) => (found, pos),
    };
    let (said, pos) = match read_said(found.raw_content.as_str(), given, pos) {
        Step::Ask(question) => return Step::Ask(question),
        Step::Fail(error) => return Step::Fail(error),
        Step::Done(said, pos) => (said, pos),
    };
    let plain = said.is_none();
    proof {
        lemma_completed_is_legible(
            reading.deep_view(),
            item@,
            found.deep_view(),
            said.deep_view(),
            given.deep_view().skip(pos as int),
        );
    }
    let more = match said {
        Some(said) => said,
        None => ContentProtocol {
            text: None,
            reply_to_name: None,
            image: None,
            audio: None,
            time: None,
            like_count: None,
            reply_count: None,
        },
    };
    let (image_url, pos) = match resolve(more.image, base, given, pos) {
        Step::Ask(question) => return Step::Ask(question),
        Step::Fail(error) => return Step::Fail(error),
        Step::Done(image, pos) => (image, pos),
    };
    let (audio_url, pos) = match resolve(more.audio, base, given, pos) {
        Step::Ask(question) => return Step::Ask(question),
        Step::Fail(error) => return Step::Fail(error),
        Step::Done(audio, pos) => (audio, pos),
    };
    let (time, pos) = match more.time {
        Some(time) => (Some(time), pos),
        None => {
            let time_rule = setting(&reading.rule.post_time_rule);
            match extract_field(item, time_rule, reading.level(), given, pos) {
                Step::Ask(question) => return Step::Ask(question),
                Step::Fail(error) => return Step::Fail(error),
                Step::Done(time, pos) => (nonempty(time), pos),
            }
        },
    };
    let content = if !plain {
        more.text
    } else if found.raw_content.as_str().is_empty() {
        None
    } else {
        Some(found.raw_content)
    };
    if found.name.is_none() && content.is_none() && image_url.is_none() && audio_url.is_none() {
        return Step::Done(None, pos);
    }
    let single = ReviewItem {
        id: found.id,
        avatar: found.avatar,
        name: found.name,
        reply_to_name: more.reply_to_name,
        badges: found.badges,
        content,
        image_url,
        audio_url,
        time,
        like_count: more.like_count,
        reply_count: if reading.is_reply() {
            None
        } else {
            more.reply_count
        },
        replies: Vec::new(),
    };
    proof {
        assert(single.deep_view().replies =~= Seq::empty());
    }
    Step::Done(Some(single), pos)
}

/// Reads an item, with the replies that come with it.
pub fn parse_item(reading: &Reading, item: &str, given: &Vec<Answer>, pos: usize) -> (r: Step<
    Option<ReviewItem>,
>)
    requires
        pos <= given.len(),
    ensures
        r.agrees(
            given.deep_view(),
            read_item(reading.deep_view(), item@, given.deep_view().skip(pos as int)),
        ),
        r matches Step::Done(Some(item), _) ==> legible(item.deep_view()),
    decreases depth(reading.deep_view()), 0nat,
{
    proof {
        reveal(read_item);
    }
    let (single, pos) = match parse_single(reading, item, given, pos) {
        Step::Ask(question) => return Step::Ask(question),
        Step::Fail(error) => return Step::Fail(error),
        Step::Done(None, pos) => return Step::Done(None, pos),
        Step::Done(Some(single), pos) => (single, pos),
    };
    let rule = reading.rule;
    if reading.is_reply() || filled(&rule.review_quote_url).is_some() {
        return Step::Done(Some(single), pos);
    }
    let list_rule = match setting(&rule.reply_list_rule) {
        Some(list_rule) => list_rule,
        None => return Step::Done(Some(single), pos),
    };
    let level = INNER_LEVEL;
    let pos = match take_ready(given, pos, Question::ForkVars { level }) {
        Step::Ask(question) => return Step::Ask(question),
        Step::Fail(error) => return Step::Fail(error),
        Step::Done(_, pos) => pos,
    };
    let (texts, pos) = match extract_elements(list_rule, item, level, given, pos) {
        Step::Ask(question) => return Step::Ask(question),
        Step::Fail(error) => return Step::Fail(error),
        Step::Done(texts, pos) => (texts, pos),
    };
    let nested = Reading {
        rule,
        base_url: reading.base_url,
        role: Role::InnerReply,
        content_rule: match rule.reply_content_rule() {
            Some(content_rule) => content_rule,
            None => reading.content_rule,
        },
    };
    match parse_items(&nested, &texts, given, pos) {
        Step::Ask(question) => Step::Ask(question),
        Step::Fail(error) => Step::Fail(error),
        Step::Done(replies, pos) => {
            let whole = ReviewItem { replies, ..single };
            proof {
                whole.lemma_replies();
            }
            Step::Done(Some(whole), pos)
        },
    }
}

/// Reads the items that the texts are, in their order.
pub fn parse_items(reading: &Reading, texts: &Vec<String>, given: &Vec<Answer>, pos: usize) -> (r:
    Step<Vec<ReviewItem>>)
    requires
        pos <= given.len(),
    ensures
        r.agrees(
            given.deep_view(),
            read_items(
                reading.deep_view(),
                texts.deep_view(),
                Seq::empty(),
                given.deep_view().skip(pos as int),
            ),
        ),
        r matches Step::Done(items, _) ==> all_legible(items.deep_view()),
    decreases depth(reading.deep_view()), texts.len(),
{
    let mut items: Vec<ReviewItem> = Vec::new();
    let mut at: usize = pos;
    let mut i: usize = 0;
    proof {
        reveal(read_item);
        assert(texts.deep_view().skip(0) =~= texts.deep_view());
        assert(items.deep_view() =~= Seq::empty());
    }
    while i < texts.len()
        invariant
            i <= texts.len(),
            at <= given.len(),
            all_legible(items.deep_view()),
            read_items(
                reading.deep_view(),
                texts.deep_view(),
                Seq::empty(),
                given.deep_view().skip(pos as int),
            ) == read_items(
                reading.deep_view(),
                texts.deep_view().skip(i as int),
                items.deep_view(),
                given.deep_view().skip(at as int),
            ),
        decreases texts.len() - i,
    {
        let ghost left = texts.deep_view().skip(i as int);
        proof {
            reveal(read_item);
            assert(left[0] == texts@[i as int]@);
            assert(left.drop_first() =~= texts.deep_view().skip(i + 1));
        }
        match parse_item(reading, texts[i].as_str(), given, at) {
            Step::Ask(question) => return Step::Ask(question),
            Step::Fail(error) => return Step::Fail(error),
            Step::Done(item, next) => {
                let ghost before = items.deep_view();
                match item {
                    Some(item) => {
                        items.push(item);
                        assert(items.deep_view() =~= before.push(item.deep_view()));
                    },
                    None => {},
                }
                at = next;
            },
        }
        i += 1;
    }
    Step::Done(items, at)
}

} // verus!
