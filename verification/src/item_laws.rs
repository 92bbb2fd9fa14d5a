//! How reviews and replies are read, as dialogs: by which rules, and what comes of what they find.

use crate::content::{
    badges_of, fields_of, float_text, some_text, ContentProtocolView,
};
use crate::dialog::{
    ask_ready, ask_texts, AnswerView, FetchResponseView, Outcome,
    QuestionView, LIST_MAX,
};
use crate::fetch::fetched;
use crate::item::{
    author_of, avatar_of, completed, field_of, float_of, found_in, item_of, nested_texts,
    nothing_said, read_item, read_items, resolved, said_by, single_item, time_of, with_item,
    FoundView, ReadingView, Role,
};
use crate::json::{json_object_of, JsonView};
use crate::model::{BookSource, Place, ReviewItemView, ReviewRule};
use crate::page_run::{listed, opened, PageView};
use crate::plays::{
    lemma_one, lemma_ready, lemma_silent, lemma_texts, lemma_then, plays, Line,
};
use crate::text::{i64_of, is_blank, trimmed};
use crate::vars::rule_vars;
use vstd::prelude::*;

verus! {

/// How a page is taken apart: once its response is there, the list rule is applied to the text of
/// the response, on a fresh bridge, with variables that hold that text.
pub proof fn law_page_is_taken_apart(
    source: BookSource,
    place: Place,
    url_rule: Seq<char>,
    list_rule: Seq<char>,
    asked: Seq<Line>,
    response: FetchResponseView,
    texts: Seq<Seq<char>>,
)
    requires
        plays(|a: Seq<AnswerView>| fetched(source, place, url_rule, a), asked, response),
        texts.len() <= LIST_MAX,
    ensures
        plays(
            |a: Seq<AnswerView>| opened(source, place, url_rule, list_rule, a),
            asked + seq![
                (QuestionView::OpenBridge, AnswerView::Ready),
                (QuestionView::AssignVars(rule_vars(place, response.body)), AnswerView::Ready),
                (
                    QuestionView::Elements { level: 0, rule: list_rule, text: response.body },
                    AnswerView::Texts(texts),
                ),
            ],
            (PageView { url: response.url, body: response.body, texts }),
        ),
{
    reveal(opened);
    let assign = QuestionView::AssignVars(rule_vars(place, response.body));
    let list = QuestionView::Elements { level: 0, rule: list_rule, text: response.body };
    let end = PageView { url: response.url, body: response.body, texts };
    let apart = |a: Seq<AnswerView>|
        ask_texts(a, list).then_with(
            |texts: Seq<Seq<char>>, rest: Seq<AnswerView>|
                Outcome::Done(PageView { url: response.url, body: response.body, texts }, rest),
        );
    let assigned = |a: Seq<AnswerView>|
        ask_ready(a, assign).then_with(|done: (), rest: Seq<AnswerView>| apart(rest));
    let taken = |a: Seq<AnswerView>| listed(place, list_rule, response, a);
    let open_line = seq![(QuestionView::OpenBridge, AnswerView::Ready)];
    let assign_line = seq![(assign, AnswerView::Ready)];
    let list_line = seq![(list, AnswerView::Texts(texts))];
    lemma_one(apart, list, AnswerView::Texts(texts), end);
    lemma_ready(assign);
    lemma_then(
        |a: Seq<AnswerView>| ask_ready(a, assign),
        assign_line,
        (),
        apart,
        list_line,
        end,
        assigned,
    );
    lemma_ready(QuestionView::OpenBridge);
    lemma_then(
        |a: Seq<AnswerView>| ask_ready(a, QuestionView::OpenBridge),
        open_line,
        (),
        assigned,
        assign_line + list_line,
        end,
        taken,
    );
    lemma_then(
        |a: Seq<AnswerView>| fetched(source, place, url_rule, a),
        asked,
        response,
        taken,
        open_line + (assign_line + list_line),
        end,
        |a: Seq<AnswerView>| opened(source, place, url_rule, list_rule, a),
    );
    assert(asked + (open_line + (assign_line + list_line)) =~= asked + seq![
        (QuestionView::OpenBridge, AnswerView::Ready),
        (assign, AnswerView::Ready),
        (list, AnswerView::Texts(texts)),
    ]);
}

/// What a rule, where there is one, is asked to find in a text. What it finds is `found`.
pub open spec fn rule_lines(
    rule: Option<String>,
    level: u8,
    text: Seq<char>,
    found: Seq<char>,
) -> Seq<Line> {
    match rule {
        Some(rule) => seq![
            (QuestionView::Field { level, rule: rule@, text }, AnswerView::Text(found)),
        ],
        None => Seq::empty(),
    }
}

/// What a rule found, trimmed. Where there is no rule, nothing is found.
pub open spec fn rule_finds(rule: Option<String>, found: Seq<char>) -> Seq<char> {
    match rule {
        Some(_) => trimmed(found),
        None => Seq::empty(),
    }
}

/// How an address, where there is one, is made absolute. What comes of it is `made`.
pub open spec fn absolute_lines(
    url: Option<Seq<char>>,
    base: Seq<char>,
    made: Seq<char>,
) -> Seq<Line> {
    match url {
        Some(url) => seq![(QuestionView::Resolve { url, base }, AnswerView::Text(made))],
        None => Seq::empty(),
    }
}

/// What comes of an address that is made absolute, where there is one.
pub open spec fn made_absolute(url: Option<Seq<char>>, made: Seq<char>) -> Option<Seq<char>> {
    match url {
        Some(_) => Some(made),
        None => None,
    }
}

pub proof fn lemma_field(rule: Option<String>, level: u8, text: Seq<char>, found: Seq<char>)
    ensures
        plays(
            |a: Seq<AnswerView>| field_of(text, rule.deep_view(), level, a),
            rule_lines(rule, level, text, found),
            rule_finds(rule, found),
        ),
{
    reveal(field_of);
    let part = |a: Seq<AnswerView>| field_of(text, rule.deep_view(), level, a);
    match rule {
        Some(r) => {
            lemma_one(
                part,
                QuestionView::Field { level, rule: r@, text },
                AnswerView::Text(found),
                trimmed(found),
            );
        },
        None => {
            lemma_silent(part, Seq::empty());
        },
    }
}

/// As above, for a rule that is there.
pub proof fn lemma_field_there(rule: Seq<char>, level: u8, text: Seq<char>, found: Seq<char>)
    ensures
        plays(
            |a: Seq<AnswerView>| field_of(text, Some(rule), level, a),
            seq![(QuestionView::Field { level, rule, text }, AnswerView::Text(found))],
            trimmed(found),
        ),
{
    reveal(field_of);
    lemma_one(
        |a: Seq<AnswerView>| field_of(text, Some(rule), level, a),
        QuestionView::Field { level, rule, text },
        AnswerView::Text(found),
        trimmed(found),
    );
}

pub proof fn lemma_absolute(url: Option<Seq<char>>, base: Seq<char>, made: Seq<char>)
    ensures
        plays(
            |a: Seq<AnswerView>| resolved(url, base, a),
            absolute_lines(url, base, made),
            made_absolute(url, made),
        ),
{
    reveal(resolved);
    let part = |a: Seq<AnswerView>| resolved(url, base, a);
    match url {
        Some(u) => {
            lemma_one(
                part,
                QuestionView::Resolve { url: u, base },
                AnswerView::Text(made),
                Some(made),
            );
        },
        None => {
            lemma_silent(part, None);
        },
    }
}

/// The text that a member of a content object is: a text that is not blank, trimmed; a number as it
/// is written; a truth value by its name; nothing else.
pub open spec fn is_text_of(value: Option<JsonView>, text: Option<Seq<char>>) -> bool {
    match value {
        Some(JsonView::Text(s)) => if is_blank(s) {
            text is None
        } else {
            text == Some(trimmed(s))
        },
        Some(JsonView::Number(n)) => text == Some(n.text),
        Some(JsonView::Bool(true)) => text == Some("true"@),
        Some(JsonView::Bool(false)) => text == Some("false"@),
        _ => text is None,
    }
}

/// The number that a member of a content object is: an integer, as a number or as a text; else what
/// the number or the text is as a floating-point number; nothing else.
pub open spec fn is_number_of(
    value: Option<JsonView>,
    float: Option<i64>,
    number: Option<i64>,
) -> bool {
    match value {
        Some(JsonView::Number(n)) => if n.int is Some {
            number == n.int
        } else {
            number == float
        },
        Some(JsonView::Text(s)) => if i64_of(trimmed(s)) is Some {
            number == i64_of(trimmed(s))
        } else {
            number == float
        },
        _ => number is None,
    }
}

/// What is asked about a count: how it reads as a floating-point number, where it is no integer.
pub open spec fn count_lines(value: Option<JsonView>, float: Option<i64>) -> Seq<Line> {
    match value {
        Some(JsonView::Number(n)) => if n.int is Some {
            Seq::empty()
        } else {
            seq![(QuestionView::ReadFloat(n.text), AnswerView::Number(float))]
        },
        Some(JsonView::Text(s)) => if i64_of(trimmed(s)) is Some {
            Seq::empty()
        } else {
            seq![(QuestionView::ReadFloat(trimmed(s)), AnswerView::Number(float))]
        },
        _ => Seq::empty(),
    }
}

/// The member of that name, if there is one.
pub open spec fn named(members: Map<Seq<char>, JsonView>, name: Seq<char>) -> Option<JsonView> {
    if members.dom().contains(name) {
        Some(members[name])
    } else {
        None
    }
}

/// Does this say nothing at all?
pub open spec fn says_nothing(said: ContentProtocolView) -> bool {
    &&& said.text is None
    &&& said.reply_to_name is None
    &&& said.image is None
    &&& said.audio is None
    &&& said.time is None
    &&& said.like_count is None
    &&& said.reply_count is None
}

proof fn lemma_float(value: Option<JsonView>, float: Option<i64>)
    ensures
        plays(
            |a: Seq<AnswerView>| float_of(float_text(value), a),
            count_lines(value, float),
            if count_lines(value, float).len() > 0 {
                float
            } else {
                None
            },
        ),
{
    let part = |a: Seq<AnswerView>| float_of(float_text(value), a);
    match float_text(value) {
        Some(text) => {
            lemma_one(part, QuestionView::ReadFloat(text), AnswerView::Number(float), float);
        },
        None => {
            lemma_silent(part, None);
        },
    }
}

/// How a content that is a JSON object is read: its counts are asked about where they are no
/// integers, and it says what its members say. An object that says nothing is as good as none.
pub proof fn law_content_object_is_read(
    raw: Seq<char>,
    members: Map<Seq<char>, JsonView>,
    like: Option<i64>,
    reply: Option<i64>,
) -> (said: ContentProtocolView)
    requires
        json_object_of(trimmed(raw)) == Some(members),
    ensures
        is_text_of(named(members, "text"@), said.text),
        is_text_of(named(members, "replyToName"@), said.reply_to_name),
        is_text_of(named(members, "img"@), said.image),
        is_text_of(named(members, "audio"@), said.audio),
        is_text_of(named(members, "time"@), said.time),
        is_number_of(named(members, "likeCount"@), like, said.like_count),
        is_number_of(named(members, "replyCount"@), reply, said.reply_count),
        plays(
            |a: Seq<AnswerView>| said_by(raw, a),
            count_lines(named(members, "likeCount"@), like) + count_lines(
                named(members, "replyCount"@),
                reply,
            ),
            if says_nothing(said) {
                None
            } else {
                Some(said)
            },
        ),
{
    reveal(said_by);
    let fields = fields_of(raw)->0;
    let likes = named(members, "likeCount"@);
    let replies = named(members, "replyCount"@);
    assert(fields.like_count == likes && fields.reply_count == replies);
    let l = if count_lines(likes, like).len() > 0 {
        like
    } else {
        None
    };
    let r = if count_lines(replies, reply).len() > 0 {
        reply
    } else {
        None
    };
    let said = ContentProtocolView {
        text: crate::content::json_text(fields.text),
        reply_to_name: crate::content::json_text(fields.reply_to_name),
        image: crate::content::json_text(fields.image),
        audio: crate::content::json_text(fields.audio),
        time: crate::content::json_text(fields.time),
        like_count: crate::content::json_number(fields.like_count, l),
        reply_count: crate::content::json_number(fields.reply_count, r),
    };
    let end = if says_nothing(said) {
        None
    } else {
        Some(said)
    };
    assert(crate::content::protocol_of(fields, l, r) == end);
    lemma_float(likes, like);
    lemma_float(replies, reply);
    let second = |a: Seq<AnswerView>|
        float_of(float_text(fields.reply_count), a).then_with(
            |reply: Option<i64>, rest: Seq<AnswerView>|
                Outcome::Done(crate::content::protocol_of(fields, l, reply), rest),
        );
    let done = |a: Seq<AnswerView>| Outcome::Done(end, a);
    lemma_silent(done, end);
    lemma_then(
        |a: Seq<AnswerView>| float_of(float_text(replies), a),
        count_lines(replies, reply),
        r,
        done,
        Seq::empty(),
        end,
        second,
    );
    lemma_then(
        |a: Seq<AnswerView>| float_of(float_text(likes), a),
        count_lines(likes, like),
        l,
        second,
        count_lines(replies, reply) + Seq::<Line>::empty(),
        end,
        |a: Seq<AnswerView>| said_by(raw, a),
    );
    assert(count_lines(likes, like) + (count_lines(replies, reply) + Seq::<Line>::empty())
        =~= count_lines(likes, like) + count_lines(replies, reply));
    said
}

/// A content that is no JSON object says nothing as one, and nothing is asked about it.
pub proof fn law_plain_content_is_no_object(raw: Seq<char>)
    requires
        json_object_of(trimmed(raw)) is None,
    ensures
        plays(|a: Seq<AnswerView>| said_by(raw, a), Seq::empty(), None),
{
    reveal(said_by);
    lemma_silent(|a: Seq<AnswerView>| said_by(raw, a), None);
}

/// What the rules find of an item, and what is made absolute of it.
pub struct Finds {
    pub id: Seq<char>,
    pub avatar: Seq<char>,
    pub avatar_made: Seq<char>,
    pub name: Seq<char>,
    pub badges: Seq<char>,
    pub content: Seq<char>,
    pub image_made: Seq<char>,
    pub audio_made: Seq<char>,
    pub time: Seq<char>,
}

/// The rules by which the id, the picture, the name and the badges of an item are found: those for
/// reviews, or those for replies.
spec fn rules_of(rule: ReviewRule, role: Role) -> (
    Option<String>,
    Option<String>,
    Option<String>,
    Option<String>,
) {
    match role {
        Role::Review => (
            rule.detail_id_rule,
            rule.detail_avatar_rule,
            rule.detail_name_rule,
            rule.detail_badge_rule,
        ),
        _ => (
            rule.reply_id_rule,
            rule.reply_avatar_rule,
            rule.reply_name_rule,
            rule.reply_badge_rule,
        ),
    }
}

/// The level of the variables with which an item is read.
spec fn level_of(role: Role) -> u8 {
    match role {
        Role::InnerReply => 3,
        _ => 1,
    }
}

/// What is asked about an item up to its content: with variables of its own, its id, its author's
/// picture, which is made absolute, name and badges, and its content, each by the rule for it.
spec fn found_lines(reading: ReadingView, item: Seq<char>, finds: Finds) -> Seq<Line> {
    let level = level_of(reading.role);
    let (id_rule, avatar_rule, name_rule, badge_rule) = rules_of(reading.rule, reading.role);
    seq![(QuestionView::ForkVars { level }, AnswerView::Ready)] + (rule_lines(
        id_rule,
        level,
        item,
        finds.id,
    ) + (rule_lines(avatar_rule, level, item, finds.avatar) + absolute_lines(
        some_text(rule_finds(avatar_rule, finds.avatar)),
        reading.base_url,
        finds.avatar_made,
    ) + rule_lines(name_rule, level, item, finds.name))) + (rule_lines(
        badge_rule,
        level,
        item,
        finds.badges,
    ) + seq![
        (
            QuestionView::Field { level, rule: reading.content_rule, text: item },
            AnswerView::Text(finds.content),
        ),
    ])
}

/// What is asked about an item behind its content: a picture and a sound are made absolute, and the
/// time is asked for where the content does not say it.
spec fn rest_lines(
    reading: ReadingView,
    item: Seq<char>,
    said: Option<ContentProtocolView>,
    finds: Finds,
) -> Seq<Line> {
    let level = level_of(reading.role);
    let time = rule_lines(reading.rule.post_time_rule, level, item, finds.time);
    match said {
        Some(said) => absolute_lines(said.image, reading.base_url, finds.image_made) + (
        absolute_lines(said.audio, reading.base_url, finds.audio_made) + if said.time is Some {
            Seq::empty()
        } else {
            time
        }),
        None => time,
    }
}

/// The item that was found.
spec fn item_found(
    reading: ReadingView,
    said: Option<ContentProtocolView>,
    finds: Finds,
) -> ReviewItemView {
    let (id_rule, avatar_rule, name_rule, badge_rule) = rules_of(reading.rule, reading.role);
    let rule_time = some_text(rule_finds(reading.rule.post_time_rule, finds.time));
    let plain = ReviewItemView {
        id: some_text(rule_finds(id_rule, finds.id)),
        avatar: made_absolute(
            some_text(rule_finds(avatar_rule, finds.avatar)),
            finds.avatar_made,
        ),
        name: some_text(rule_finds(name_rule, finds.name)),
        reply_to_name: None,
        badges: badges_of(rule_finds(badge_rule, finds.badges)),
        content: some_text(finds.content),
        image_url: None,
        audio_url: None,
        time: rule_time,
        like_count: None,
        reply_count: None,
        replies: Seq::empty(),
    };
    match said {
        None => plain,
        Some(said) => ReviewItemView {
            reply_to_name: said.reply_to_name,
            content: said.text,
            image_url: made_absolute(said.image, finds.image_made),
            audio_url: made_absolute(said.audio, finds.audio_made),
            time: if said.time is Some {
                said.time
            } else {
                rule_time
            },
            like_count: said.like_count,
            reply_count: if reading.role is Review {
                said.reply_count
            } else {
                None
            },
            ..plain
        },
    }
}

/// Is there anything in the item to be shown?
spec fn shows_something(item: ReviewItemView) -> bool {
    item.name is Some || item.content is Some || item.image_url is Some || item.audio_url is Some
}

proof fn lemma_found(reading: ReadingView, item: Seq<char>, finds: Finds)
    ensures
        ({
            let found = item_found(reading, None, finds);
            plays(
                |a: Seq<AnswerView>| found_in(reading, item, a),
                found_lines(reading, item, finds),
                (FoundView {
                    id: found.id,
                    avatar: found.avatar,
                    name: found.name,
                    badges: found.badges,
                    raw_content: trimmed(finds.content),
                }),
            )
        }),
{
    reveal(found_in);
    reveal(author_of);
    reveal(avatar_of);
    let level = level_of(reading.role);
    assert(level == reading.level());
    let base = reading.base_url;
    let (id_rule, avatar_rule, name_rule, badge_rule) = rules_of(reading.rule, reading.role);
    assert(reading.id_rule() == id_rule.deep_view());
    assert(reading.avatar_rule() == avatar_rule.deep_view());
    assert(reading.name_rule() == name_rule.deep_view());
    assert(reading.badge_rule() == badge_rule.deep_view());
    let id = rule_finds(id_rule, finds.id);
    let avatar = rule_finds(avatar_rule, finds.avatar);
    let avatar_url = made_absolute(some_text(avatar), finds.avatar_made);
    let name = rule_finds(name_rule, finds.name);
    let badges = rule_finds(badge_rule, finds.badges);
    let content = trimmed(finds.content);
    let author = (some_text(id), avatar_url, some_text(name));
    let end = FoundView {
        id: author.0,
        avatar: author.1,
        name: author.2,
        badges: badges_of(badges),
        raw_content: content,
    };
    let id_lines = rule_lines(id_rule, level, item, finds.id);
    let avatar_lines = rule_lines(avatar_rule, level, item, finds.avatar);
    let made_lines = absolute_lines(some_text(avatar), base, finds.avatar_made);
    let name_lines = rule_lines(name_rule, level, item, finds.name);
    let badge_lines = rule_lines(badge_rule, level, item, finds.badges);
    let content_line = seq![
        (
            QuestionView::Field { level, rule: reading.content_rule, text: item },
            AnswerView::Text(finds.content),
        ),
    ];
    let fork = QuestionView::ForkVars { level };
    let fork_line = seq![(fork, AnswerView::Ready)];
    let none = Seq::<Line>::empty();
    // The author.
    let authored = |a: Seq<AnswerView>| Outcome::Done(author, a);
    let named_part = |a: Seq<AnswerView>|
        field_of(item, name_rule.deep_view(), level, a).then_with(
            |name: Seq<char>, rest: Seq<AnswerView>|
                Outcome::Done((some_text(id), avatar_url, some_text(name)), rest),
        );
    let pictured = |a: Seq<AnswerView>|
        avatar_of(reading, item, a).then_with(
            |avatar: Option<Seq<char>>, rest: Seq<AnswerView>|
                field_of(item, name_rule.deep_view(), level, rest).then_with(
                    |name: Seq<char>, rest: Seq<AnswerView>|
                        Outcome::Done((some_text(id), avatar, some_text(name)), rest),
                ),
        );
    lemma_silent(authored, author);
    lemma_field(name_rule, level, item, finds.name);
    lemma_then(
        |a: Seq<AnswerView>| field_of(item, name_rule.deep_view(), level, a),
        name_lines,
        name,
        authored,
        none,
        author,
        named_part,
    );
    assert(name_lines + none =~= name_lines);
    lemma_field(avatar_rule, level, item, finds.avatar);
    lemma_absolute(some_text(avatar), base, finds.avatar_made);
    lemma_then(
        |a: Seq<AnswerView>| field_of(item, avatar_rule.deep_view(), level, a),
        avatar_lines,
        avatar,
        |a: Seq<AnswerView>| resolved(some_text(avatar), base, a),
        made_lines,
        avatar_url,
        |a: Seq<AnswerView>| avatar_of(reading, item, a),
    );
    lemma_then(
        |a: Seq<AnswerView>| avatar_of(reading, item, a),
        avatar_lines + made_lines,
        avatar_url,
        named_part,
        name_lines,
        author,
        pictured,
    );
    lemma_field(id_rule, level, item, finds.id);
    lemma_then(
        |a: Seq<AnswerView>| field_of(item, id_rule.deep_view(), level, a),
        id_lines,
        id,
        pictured,
        avatar_lines + made_lines + name_lines,
        author,
        |a: Seq<AnswerView>| author_of(reading, item, a),
    );
    // The badges and the content.
    let author_lines = id_lines + (avatar_lines + made_lines + name_lines);
    let finished = |a: Seq<AnswerView>| Outcome::Done(end, a);
    let contented = |a: Seq<AnswerView>|
        field_of(item, Some(reading.content_rule), level, a).then_with(
            |raw_content: Seq<char>, rest: Seq<AnswerView>|
                Outcome::Done(
                    FoundView {
                        id: author.0,
                        avatar: author.1,
                        name: author.2,
                        badges: badges_of(badges),
                        raw_content,
                    },
                    rest,
                ),
        );
    let badged = |a: Seq<AnswerView>|
        field_of(item, badge_rule.deep_view(), level, a).then_with(
            |badges: Seq<char>, rest: Seq<AnswerView>|
                field_of(item, Some(reading.content_rule), level, rest).then_with(
                    |raw_content: Seq<char>, rest: Seq<AnswerView>|
                        Outcome::Done(
                            FoundView {
                                id: author.0,
                                avatar: author.1,
                                name: author.2,
                                badges: badges_of(badges),
                                raw_content,
                            },
                            rest,
                        ),
                ),
        );
    let forked = |a: Seq<AnswerView>|
        author_of(reading, item, a).then_with(
            |author: (Option<Seq<char>>, Option<Seq<char>>, Option<Seq<char>>),
                rest: Seq<AnswerView>|
                field_of(item, badge_rule.deep_view(), level, rest).then_with(
                    |badges: Seq<char>, rest: Seq<AnswerView>|
                        field_of(item, Some(reading.content_rule), level, rest).then_with(
                            |raw_content: Seq<char>, rest: Seq<AnswerView>|
                                Outcome::Done(
                                    FoundView {
                                        id: author.0,
                                        avatar: author.1,
                                        name: author.2,
                                        badges: badges_of(badges),
                                        raw_content,
                                    },
                                    rest,
                                ),
                        ),
                ),
        );
    lemma_silent(finished, end);
    lemma_field_there(reading.content_rule, level, item, finds.content);
    lemma_then(
        |a: Seq<AnswerView>| field_of(item, Some(reading.content_rule), level, a),
        content_line,
        content,
        finished,
        none,
        end,
        contented,
    );
    assert(content_line + none =~= content_line);
    lemma_field(badge_rule, level, item, finds.badges);
    lemma_then(
        |a: Seq<AnswerView>| field_of(item, badge_rule.deep_view(), level, a),
        badge_lines,
        badges,
        contented,
        content_line,
        end,
        badged,
    );
    lemma_then(
        |a: Seq<AnswerView>| author_of(reading, item, a),
        author_lines,
        author,
        badged,
        badge_lines + content_line,
        end,
        forked,
    );
    lemma_ready(fork);
    lemma_then(
        |a: Seq<AnswerView>| ask_ready(a, fork),
        fork_line,
        (),
        forked,
        author_lines + (badge_lines + content_line),
        end,
        |a: Seq<AnswerView>| found_in(reading, item, a),
    );
    assert(fork_line + (author_lines + (badge_lines + content_line)) =~= found_lines(
        reading,
        item,
        finds,
    ));
}

proof fn lemma_completed(
    reading: ReadingView,
    item: Seq<char>,
    found: FoundView,
    said: Option<ContentProtocolView>,
    finds: Finds,
)
    requires
        found.id == item_found(reading, None, finds).id,
        found.avatar == item_found(reading, None, finds).avatar,
        found.name == item_found(reading, None, finds).name,
        found.badges == item_found(reading, None, finds).badges,
        found.raw_content == trimmed(finds.content),
    ensures
        plays(
            |a: Seq<AnswerView>| completed(reading, item, found, said, a),
            rest_lines(reading, item, said, finds),
            if shows_something(item_found(reading, said, finds)) {
                Some(item_found(reading, said, finds))
            } else {
                None
            },
        ),
{
    reveal(completed);
    let level = level_of(reading.role);
    assert(level == reading.level());
    let base = reading.base_url;
    let rule = reading.rule.post_time_rule;
    let more = match said {
        Some(said) => said,
        None => nothing_said(),
    };
    let none = Seq::<Line>::empty();
    let image = made_absolute(more.image, finds.image_made);
    let audio = made_absolute(more.audio, finds.audio_made);
    let rule_time = some_text(rule_finds(rule, finds.time));
    let time = if more.time is Some {
        more.time
    } else {
        rule_time
    };
    let time_lines = if more.time is Some {
        none
    } else {
        rule_lines(rule, level, item, finds.time)
    };
    let image_lines = absolute_lines(more.image, base, finds.image_made);
    let audio_lines = absolute_lines(more.audio, base, finds.audio_made);
    let whole_item = item_found(reading, said, finds);
    let end = if shows_something(whole_item) {
        Some(whole_item)
    } else {
        None
    };
    assert(whole_item.replies =~= Seq::empty());
    assert(item_of(reading.is_reply(), found, said, image, audio, time) == end);
    let finished = |a: Seq<AnswerView>| Outcome::Done(end, a);
    let timed = |a: Seq<AnswerView>| time_of(reading, item, more.time, a);
    let from_time = |a: Seq<AnswerView>|
        time_of(reading, item, more.time, a).then_with(
            |time: Option<Seq<char>>, rest: Seq<AnswerView>|
                Outcome::Done(
                    item_of(reading.is_reply(), found, said, image, audio, time),
                    rest,
                ),
        );
    let from_audio = |a: Seq<AnswerView>|
        resolved(more.audio, base, a).then_with(
            |audio: Option<Seq<char>>, rest: Seq<AnswerView>|
                time_of(reading, item, more.time, rest).then_with(
                    |time: Option<Seq<char>>, rest: Seq<AnswerView>|
                        Outcome::Done(
                            item_of(reading.is_reply(), found, said, image, audio, time),
                            rest,
                        ),
                ),
        );
    lemma_silent(finished, end);
    if more.time is Some {
        lemma_silent(timed, time);
    } else {
        lemma_field(rule, level, item, finds.time);
        let kept = |a: Seq<AnswerView>| Outcome::Done(rule_time, a);
        lemma_silent(kept, rule_time);
        lemma_then(
            |a: Seq<AnswerView>| field_of(item, rule.deep_view(), level, a),
            rule_lines(rule, level, item, finds.time),
            rule_finds(rule, finds.time),
            kept,
            none,
            rule_time,
            timed,
        );
        assert(time_lines + none =~= time_lines);
    }
    lemma_then(timed, time_lines, time, finished, none, end, from_time);
    assert(time_lines + none =~= time_lines);
    lemma_absolute(more.audio, base, finds.audio_made);
    lemma_then(
        |a: Seq<AnswerView>| resolved(more.audio, base, a),
        audio_lines,
        audio,
        from_time,
        time_lines,
        end,
        from_audio,
    );
    lemma_absolute(more.image, base, finds.image_made);
    lemma_then(
        |a: Seq<AnswerView>| resolved(more.image, base, a),
        image_lines,
        image,
        from_audio,
        audio_lines + time_lines,
        end,
        |a: Seq<AnswerView>| completed(reading, item, found, said, a),
    );
    assert(image_lines + (audio_lines + time_lines) =~= rest_lines(reading, item, said, finds));
}

proof fn lemma_single(
    reading: ReadingView,
    item: Seq<char>,
    finds: Finds,
    said_lines: Seq<Line>,
    said: Option<ContentProtocolView>,
)
    requires
        plays(|a: Seq<AnswerView>| said_by(trimmed(finds.content), a), said_lines, said),
    ensures
        plays(
            |a: Seq<AnswerView>| single_item(reading, item, a),
            found_lines(reading, item, finds) + (said_lines + rest_lines(
                reading,
                item,
                said,
                finds,
            )),
            if shows_something(item_found(reading, said, finds)) {
                Some(item_found(reading, said, finds))
            } else {
                None
            },
        ),
{
    reveal(single_item);
    let plain = item_found(reading, None, finds);
    let found = FoundView {
        id: plain.id,
        avatar: plain.avatar,
        name: plain.name,
        badges: plain.badges,
        raw_content: trimmed(finds.content),
    };
    let end = if shows_something(item_found(reading, said, finds)) {
        Some(item_found(reading, said, finds))
    } else {
        None
    };
    let from_said = |a: Seq<AnswerView>|
        said_by(found.raw_content, a).then_with(
            |said: Option<ContentProtocolView>, rest: Seq<AnswerView>|
                completed(reading, item, found, said, rest),
        );
    lemma_completed(reading, item, found, said, finds);
    lemma_then(
        |a: Seq<AnswerView>| said_by(trimmed(finds.content), a),
        said_lines,
        said,
        |a: Seq<AnswerView>| completed(reading, item, found, said, a),
        rest_lines(reading, item, said, finds),
        end,
        from_said,
    );
    lemma_found(reading, item, finds);
    lemma_then(
        |a: Seq<AnswerView>| found_in(reading, item, a),
        found_lines(reading, item, finds),
        found,
        from_said,
        said_lines + rest_lines(reading, item, said, finds),
        end,
        |a: Seq<AnswerView>| single_item(reading, item, a),
    );
}

/// Is the setting there, and not blank?
pub open spec fn is_set(setting: Option<String>) -> bool {
    setting matches Some(setting) && !is_blank(setting@)
}

proof fn lemma_item_is_read(
    reading: ReadingView,
    item: Seq<char>,
    finds: Finds,
    said_lines: Seq<Line>,
    said: Option<ContentProtocolView>,
)
    requires
        plays(|a: Seq<AnswerView>| said_by(trimmed(finds.content), a), said_lines, said),
        !(reading.role is Review),
    ensures
        plays(
            |a: Seq<AnswerView>| read_item(reading, item, a),
            found_lines(reading, item, finds) + (said_lines + rest_lines(
                reading,
                item,
                said,
                finds,
            )),
            if shows_something(item_found(reading, said, finds)) {
                Some(item_found(reading, said, finds))
            } else {
                None
            },
        ),
{
    reveal(read_item);
    let lines = found_lines(reading, item, finds) + (said_lines + rest_lines(
        reading,
        item,
        said,
        finds,
    ));
    let end = if shows_something(item_found(reading, said, finds)) {
        Some(item_found(reading, said, finds))
    } else {
        None
    };
    let finished = |a: Seq<AnswerView>| Outcome::Done(end, a);
    lemma_silent(finished, end);
    lemma_single(reading, item, finds, said_lines, said);
    lemma_then(
        |a: Seq<AnswerView>| single_item(reading, item, a),
        lines,
        end,
        finished,
        Seq::empty(),
        end,
        |a: Seq<AnswerView>| read_item(reading, item, a),
    );
    assert(lines + Seq::<Line>::empty() =~= lines);
}

/// How a reply is read, on a page of replies or inside a review: with variables of its own, its id,
/// its author's picture, name and badges, each by the rule for replies, and its content. A picture
/// is made absolute against the address of the response. The content is what its object says, of
/// which `said_lines` is the dialog, else the content as it is; the time is what the object says,
/// else what the rule finds. A reply does not count replies. One with nothing to be shown is no
/// item.
pub proof fn law_reply_is_read_by_the_rules_for_replies(
    reading: ReadingView,
    level: u8,
    item: Seq<char>,
    finds: Finds,
    said_lines: Seq<Line>,
    said: Option<ContentProtocolView>,
) -> (read: ReviewItemView)
    requires
        !(reading.role is Review),
        reading.role is Reply ==> level == 1,
        reading.role is InnerReply ==> level == 3,
        plays(|a: Seq<AnswerView>| said_by(trimmed(finds.content), a), said_lines, said),
    ensures
        read.id == some_text(rule_finds(reading.rule.reply_id_rule, finds.id)),
        read.avatar == made_absolute(
            some_text(rule_finds(reading.rule.reply_avatar_rule, finds.avatar)),
            finds.avatar_made,
        ),
        read.name == some_text(rule_finds(reading.rule.reply_name_rule, finds.name)),
        read.badges == badges_of(rule_finds(reading.rule.reply_badge_rule, finds.badges)),
        said is None ==> read.content == some_text(finds.content),
        said is None ==> read.image_url is None && read.audio_url is None,
        said is None ==> read.reply_to_name is None && read.like_count is None,
        said is Some ==> read.content == said->0.text,
        said is Some ==> read.image_url == made_absolute(said->0.image, finds.image_made),
        said is Some ==> read.audio_url == made_absolute(said->0.audio, finds.audio_made),
        said is Some ==> read.reply_to_name == said->0.reply_to_name,
        said is Some ==> read.like_count == said->0.like_count,
        read.reply_count is None,
        said is Some && said->0.time is Some ==> read.time == said->0.time,
        said is None || said->0.time is None ==> read.time == some_text(
            rule_finds(reading.rule.post_time_rule, finds.time),
        ),
        read.replies.len() == 0,
        said is None ==> plays(
            |a: Seq<AnswerView>| read_item(reading, item, a),
            seq![(QuestionView::ForkVars { level }, AnswerView::Ready)] + (rule_lines(
                reading.rule.reply_id_rule,
                level,
                item,
                finds.id,
            ) + (rule_lines(
                reading.rule.reply_avatar_rule,
                level,
                item,
                finds.avatar,
            ) + absolute_lines(
                some_text(rule_finds(reading.rule.reply_avatar_rule, finds.avatar)),
                reading.base_url,
                finds.avatar_made,
            ) + rule_lines(reading.rule.reply_name_rule, level, item, finds.name))) + (rule_lines(
                reading.rule.reply_badge_rule,
                level,
                item,
                finds.badges,
            ) + seq![
                (
                    QuestionView::Field { level, rule: reading.content_rule, text: item },
                    AnswerView::Text(finds.content),
                ),
            ]) + (said_lines + rule_lines(reading.rule.post_time_rule, level, item, finds.time)),
            if read.name is Some || read.content is Some || read.image_url is Some
                || read.audio_url is Some {
                Some(read)
            } else {
                None
            },
        ),
        said is Some ==> plays(
            |a: Seq<AnswerView>| read_item(reading, item, a),
            seq![(QuestionView::ForkVars { level }, AnswerView::Ready)] + (rule_lines(
                reading.rule.reply_id_rule,
                level,
                item,
                finds.id,
            ) + (rule_lines(
                reading.rule.reply_avatar_rule,
                level,
                item,
                finds.avatar,
            ) + absolute_lines(
                some_text(rule_finds(reading.rule.reply_avatar_rule, finds.avatar)),
                reading.base_url,
                finds.avatar_made,
            ) + rule_lines(reading.rule.reply_name_rule, level, item, finds.name))) + (rule_lines(
                reading.rule.reply_badge_rule,
                level,
                item,
                finds.badges,
            ) + seq![
                (
                    QuestionView::Field { level, rule: reading.content_rule, text: item },
                    AnswerView::Text(finds.content),
                ),
            ]) + (said_lines + (absolute_lines(
                said->0.image,
                reading.base_url,
                finds.image_made,
            ) + (absolute_lines(said->0.audio, reading.base_url, finds.audio_made) + rule_lines(
                if said->0.time is Some {
                    None
                } else {
                    reading.rule.post_time_rule
                },
                level,
                item,
                finds.time,
            )))),
            if read.name is Some || read.content is Some || read.image_url is Some
                || read.audio_url is Some {
                Some(read)
            } else {
                None
            },
        ),
{
    let read = item_found(reading, said, finds);
    lemma_item_is_read(reading, item, finds, said_lines, said);
    if let Some(more) = said {
        let time_rule = if more.time is Some {
            None
        } else {
            reading.rule.post_time_rule
        };
        assert(rest_lines(reading, item, said, finds) =~= absolute_lines(
            more.image,
            reading.base_url,
            finds.image_made,
        ) + (absolute_lines(more.audio, reading.base_url, finds.audio_made) + rule_lines(
            time_rule,
            level,
            item,
            finds.time,
        )));
    }
    read
}

/// How a review is read, its replies left aside: with variables of its own, its id, its author's
/// picture, name and badges, each by the rule for reviews, and its content. A picture is made
/// absolute against the address of the response. The content is what its object says, of which
/// `said_lines` is the dialog, else the content as it is; the time is what the object says, else
/// what the rule finds. One with nothing to be shown is no item.
pub proof fn law_review_is_read_by_the_rules_for_reviews(
    reading: ReadingView,
    level: u8,
    item: Seq<char>,
    finds: Finds,
    said_lines: Seq<Line>,
    said: Option<ContentProtocolView>,
) -> (read: ReviewItemView)
    requires
        reading.role is Review,
        level == 1,
        plays(|a: Seq<AnswerView>| said_by(trimmed(finds.content), a), said_lines, said),
    ensures
        read.id == some_text(rule_finds(reading.rule.detail_id_rule, finds.id)),
        read.avatar == made_absolute(
            some_text(rule_finds(reading.rule.detail_avatar_rule, finds.avatar)),
            finds.avatar_made,
        ),
        read.name == some_text(rule_finds(reading.rule.detail_name_rule, finds.name)),
        read.badges == badges_of(rule_finds(reading.rule.detail_badge_rule, finds.badges)),
        said is None ==> read.content == some_text(finds.content),
        said is None ==> read.image_url is None && read.audio_url is None,
        said is None ==> read.reply_to_name is None && read.like_count is None,
        said is Some ==> read.content == said->0.text,
        said is Some ==> read.image_url == made_absolute(said->0.image, finds.image_made),
        said is Some ==> read.audio_url == made_absolute(said->0.audio, finds.audio_made),
        said is Some ==> read.reply_to_name == said->0.reply_to_name,
        said is Some ==> read.like_count == said->0.like_count,
        said is Some ==> read.reply_count == said->0.reply_count,
        said is None ==> read.reply_count is None,
        said is Some && said->0.time is Some ==> read.time == said->0.time,
        said is None || said->0.time is None ==> read.time == some_text(
            rule_finds(reading.rule.post_time_rule, finds.time),
        ),
        read.replies.len() == 0,
        said is None ==> plays(
            |a: Seq<AnswerView>| single_item(reading, item, a),
            seq![(QuestionView::ForkVars { level }, AnswerView::Ready)] + (rule_lines(
                reading.rule.detail_id_rule,
                level,
                item,
                finds.id,
            ) + (rule_lines(
                reading.rule.detail_avatar_rule,
                level,
                item,
                finds.avatar,
            ) + absolute_lines(
                some_text(rule_finds(reading.rule.detail_avatar_rule, finds.avatar)),
                reading.base_url,
                finds.avatar_made,
            ) + rule_lines(reading.rule.detail_name_rule, level, item, finds.name))) + (rule_lines(
                reading.rule.detail_badge_rule,
                level,
                item,
                finds.badges,
            ) + seq![
                (
                    QuestionView::Field { level, rule: reading.content_rule, text: item },
                    AnswerView::Text(finds.content),
                ),
            ]) + (said_lines + rule_lines(reading.rule.post_time_rule, level, item, finds.time)),
            if read.name is Some || read.content is Some || read.image_url is Some
                || read.audio_url is Some {
                Some(read)
            } else {
                None
            },
        ),
        said is Some ==> plays(
            |a: Seq<AnswerView>| single_item(reading, item, a),
            seq![(QuestionView::ForkVars { level }, AnswerView::Ready)] + (rule_lines(
                reading.rule.detail_id_rule,
                level,
                item,
                finds.id,
            ) + (rule_lines(
                reading.rule.detail_avatar_rule,
                level,
                item,
                finds.avatar,
            ) + absolute_lines(
                some_text(rule_finds(reading.rule.detail_avatar_rule, finds.avatar)),
                reading.base_url,
                finds.avatar_made,
            ) + rule_lines(reading.rule.detail_name_rule, level, item, finds.name))) + (rule_lines(
                reading.rule.detail_badge_rule,
                level,
                item,
                finds.badges,
            ) + seq![
                (
                    QuestionView::Field { level, rule: reading.content_rule, text: item },
                    AnswerView::Text(finds.content),
                ),
            ]) + (said_lines + (absolute_lines(
                said->0.image,
                reading.base_url,
                finds.image_made,
            ) + (absolute_lines(said->0.audio, reading.base_url, finds.audio_made) + rule_lines(
                if said->0.time is Some {
                    None
                } else {
                    reading.rule.post_time_rule
                },
                level,
                item,
                finds.time,
            )))),
            if read.name is Some || read.content is Some || read.image_url is Some
                || read.audio_url is Some {
                Some(read)
            } else {
                None
            },
        ),
{
    let read = item_found(reading, said, finds);
    lemma_single(reading, item, finds, said_lines, said);
    if let Some(more) = said {
        let time_rule = if more.time is Some {
            None
        } else {
            reading.rule.post_time_rule
        };
        assert(rest_lines(reading, item, said, finds) =~= absolute_lines(
            more.image,
            reading.base_url,
            finds.image_made,
        ) + (absolute_lines(more.audio, reading.base_url, finds.audio_made) + rule_lines(
            time_rule,
            level,
            item,
            finds.time,
        )));
    }
    read
}

/// A review has replies inside only where the source has a rule that lists replies and no address
/// for pages of them; else it is read as it is, its replies left aside.
pub proof fn law_review_without_replies_inside_is_read(
    reading: ReadingView,
    item: Seq<char>,
    alone: Seq<Line>,
    read: Option<ReviewItemView>,
)
    requires
        plays(|a: Seq<AnswerView>| single_item(reading, item, a), alone, read),
        reading.rule.reply_list_rule is None || is_set(reading.rule.review_quote_url)
            || read is None,
    ensures
        plays(|a: Seq<AnswerView>| read_item(reading, item, a), alone, read),
{
    reveal(read_item);
    let finished = |a: Seq<AnswerView>| Outcome::Done(read, a);
    lemma_silent(finished, read);
    lemma_then(
        |a: Seq<AnswerView>| single_item(reading, item, a),
        alone,
        read,
        finished,
        Seq::empty(),
        read,
        |a: Seq<AnswerView>| read_item(reading, item, a),
    );
    assert(alone + Seq::<Line>::empty() =~= alone);
}

/// How a review with replies inside is read: first the review itself, of which `alone` is the
/// dialog; then, with variables of their own, its replies are told apart by the rule that lists
/// replies and read one by one as replies, of which `inside` is the dialog. Their content is found
/// by the rule for the content of replies where it is set, else by the general content rule where
/// that is, else by the rule for the review's own content.
pub proof fn law_review_with_replies_inside_is_read(
    reading: ReadingView,
    item: Seq<char>,
    alone: Seq<Line>,
    read: ReviewItemView,
    texts: Seq<Seq<char>>,
    reply_content_rule: Seq<char>,
    inside: Seq<Line>,
    replies: Seq<ReviewItemView>,
)
    requires
        plays(|a: Seq<AnswerView>| single_item(reading, item, a), alone, Some(read)),
        reading.role is Review,
        reading.rule.reply_list_rule is Some,
        !is_set(reading.rule.review_quote_url),
        texts.len() <= LIST_MAX,
        is_set(reading.rule.reply_content_rule) ==> reply_content_rule
            == reading.rule.reply_content_rule->0@,
        !is_set(reading.rule.reply_content_rule) && is_set(reading.rule.content_rule)
            ==> reply_content_rule == reading.rule.content_rule->0@,
        !is_set(reading.rule.reply_content_rule) && !is_set(reading.rule.content_rule)
            ==> reply_content_rule == reading.content_rule,
        plays(
            |a: Seq<AnswerView>|
                read_items(
                    ReadingView {
                        rule: reading.rule,
                        base_url: reading.base_url,
                        content_rule: reply_content_rule,
                        role: Role::InnerReply,
                    },
                    texts,
                    Seq::empty(),
                    a,
                ),
            inside,
            replies,
        ),
    ensures
        plays(
            |a: Seq<AnswerView>| read_item(reading, item, a),
            alone + seq![
                (QuestionView::ForkVars { level: 2 }, AnswerView::Ready),
                (
                    QuestionView::Elements {
                        level: 2,
                        rule: reading.rule.reply_list_rule->0@,
                        text: item,
                    },
                    AnswerView::Texts(texts),
                ),
            ] + inside,
            Some(ReviewItemView { replies, ..read }),
        ),
{
    reveal(read_item);
    let rule = reading.rule.reply_list_rule->0@;
    let inner_reading = ReadingView {
        rule: reading.rule,
        base_url: reading.base_url,
        content_rule: reply_content_rule,
        role: Role::InnerReply,
    };
    assert(reading.nested_rule() == Some(rule));
    assert(reading.nested() == inner_reading);
    let fork = QuestionView::ForkVars { level: 2 };
    let list = QuestionView::Elements { level: 2, rule, text: item };
    let end = Some(ReviewItemView { replies, ..read });
    let finished = |a: Seq<AnswerView>| Outcome::Done(end, a);
    let inner = |a: Seq<AnswerView>| read_items(inner_reading, texts, Seq::empty(), a);
    let from_replies = |a: Seq<AnswerView>|
        inner(a).then_with(
            |replies: Seq<ReviewItemView>, rest: Seq<AnswerView>|
                Outcome::Done(Some(ReviewItemView { replies, ..read }), rest),
        );
    let apart = |a: Seq<AnswerView>| nested_texts(reading, rule, item, a);
    let from_texts = |a: Seq<AnswerView>|
        nested_texts(reading, rule, item, a).then_with(
            |texts: Seq<Seq<char>>, rest: Seq<AnswerView>|
                read_items(inner_reading, texts, Seq::empty(), rest).then_with(
                    |replies: Seq<ReviewItemView>, rest: Seq<AnswerView>|
                        Outcome::Done(Some(ReviewItemView { replies, ..read }), rest),
                ),
        );
    let none = Seq::<Line>::empty();
    let fork_line = seq![(fork, AnswerView::Ready)];
    let list_line = seq![(list, AnswerView::Texts(texts))];
    lemma_silent(finished, end);
    lemma_then(inner, inside, replies, finished, none, end, from_replies);
    assert(inside + none =~= inside);
    lemma_ready(fork);
    lemma_texts(list, texts);
    lemma_then(
        |a: Seq<AnswerView>| ask_ready(a, fork),
        fork_line,
        (),
        |a: Seq<AnswerView>| ask_texts(a, list),
        list_line,
        texts,
        apart,
    );
    lemma_then(apart, fork_line + list_line, texts, from_replies, inside, end, from_texts);
    lemma_then(
        |a: Seq<AnswerView>| single_item(reading, item, a),
        alone,
        Some(read),
        from_texts,
        fork_line + list_line + inside,
        end,
        |a: Seq<AnswerView>| read_item(reading, item, a),
    );
    assert(alone + (fork_line + list_line + inside) =~= alone + seq![
        (fork, AnswerView::Ready),
        (list, AnswerView::Texts(texts)),
    ] + inside);
}

/// The dialogs, one behind the other.
pub open spec fn in_turn(dialogs: Seq<Seq<Line>>) -> Seq<Line>
    decreases dialogs.len(),
{
    if dialogs.len() == 0 {
        Seq::empty()
    } else {
        dialogs[0] + in_turn(dialogs.drop_first())
    }
}

/// Those that are there, in their order.
pub open spec fn those_there(items: Seq<Option<ReviewItemView>>) -> Seq<ReviewItemView>
    decreases items.len(),
{
    if items.len() == 0 {
        Seq::empty()
    } else {
        match items[0] {
            Some(item) => seq![item] + those_there(items.drop_first()),
            None => those_there(items.drop_first()),
        }
    }
}

/// How a list of items is read: one by one, in their order, and those that come to nothing are left
/// out.
pub proof fn law_items_are_read_in_turn(
    reading: ReadingView,
    texts: Seq<Seq<char>>,
    before: Seq<ReviewItemView>,
    dialogs: Seq<Seq<Line>>,
    items: Seq<Option<ReviewItemView>>,
)
    requires
        dialogs.len() == texts.len(),
        items.len() == texts.len(),
        forall|i: int|
            0 <= i < texts.len() ==> plays(
                |a: Seq<AnswerView>| read_item(reading, #[trigger] texts[i], a),
                dialogs[i],
                items[i],
            ),
    ensures
        plays(
            |a: Seq<AnswerView>| read_items(reading, texts, before, a),
            in_turn(dialogs),
            before + those_there(items),
        ),
    decreases texts.len(),
{
    reveal(read_item);
    let whole = |a: Seq<AnswerView>| read_items(reading, texts, before, a);
    if texts.len() == 0 {
        lemma_silent(whole, before);
        assert(before + those_there(items) =~= before);
    } else {
        let (t, d, r) = (texts.drop_first(), dialogs.drop_first(), items.drop_first());
        let item = items[0];
        let longer = with_item(before, item);
        assert forall|i: int| 0 <= i < t.len() implies plays(
            |a: Seq<AnswerView>| read_item(reading, #[trigger] t[i], a),
            d[i],
            r[i],
        ) by {
            assert(t[i] == texts[i + 1]);
            assert(plays(
                |a: Seq<AnswerView>| read_item(reading, texts[i + 1], a),
                dialogs[i + 1],
                items[i + 1],
            ));
        }
        law_items_are_read_in_turn(reading, t, longer, d, r);
        let first = |a: Seq<AnswerView>| read_item(reading, texts[0], a);
        assert(plays(first, dialogs[0], item));
        lemma_then(
            first,
            dialogs[0],
            item,
            |a: Seq<AnswerView>| read_items(reading, t, longer, a),
            in_turn(d),
            longer + those_there(r),
            whole,
        );
        assert(before + those_there(items) =~= longer + those_there(r));
    }
}

} // verus!
