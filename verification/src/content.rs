//! What a review says: plain text or a small JSON object, and its badges.

use crate::json::{
    json_member, json_object, json_object_of, json_texts, json_texts_of, member, Json, JsonView,
};
use crate::laws::law_content_object_is_legible;
use crate::text::{i64_of, is_blank, read_i64, to_chars, trim, trimmed};
use vstd::prelude::*;
use vstd::string::*;

verus! {

/// A text without white space on either side, where anything is left of it.
pub open spec fn some_text(s: Seq<char>) -> Option<Seq<char>> {
    if is_blank(s) {
        None
    } else {
        Some(trimmed(s))
    }
}

/// The value without white space on either side, where anything is left of it.
pub fn nonempty(value: String) -> (r: Option<String>)
    ensures
        r.deep_view() == some_text(value@),
{
    let text = trim(value.as_str());
    if text.is_empty() {
        None
    } else {
        Some(text.to_owned())
    }
}

/// The number that a text is: the integer where it is one, else `float`.
pub open spec fn number_in(text: Seq<char>, float: Option<i64>) -> Option<i64> {
    match i64_of(trimmed(text)) {
        Some(n) => Some(n),
        None => float,
    }
}

/// The number that `value` is, white space on either side left off. `float` is what the text gives
/// as a floating-point number, cut to a whole one; it counts only where the text is no integer.
pub fn parse_i64(value: &str, float: Option<i64>) -> (r: Option<i64>)
    ensures
        r == number_in(value@, float),
{
    match read_i64(trim(value)) {
        Some(n) => Some(n),
        None => float,
    }
}

/// The text that a JSON value is: a text that is not blank, a number as it is written, or a truth
/// value.
pub open spec fn json_text(value: Option<JsonView>) -> Option<Seq<char>> {
    match value {
        Some(JsonView::Text(s)) => some_text(s),
        Some(JsonView::Number(n)) => Some(n.text),
        Some(JsonView::Bool(b)) => Some(
            if b {
                "true"@
            } else {
                "false"@
            },
        ),
        _ => None,
    }
}

/// The text that a JSON value is.
pub fn value_string(value: Option<&Json>) -> (r: Option<String>)
    ensures
        r.deep_view() == json_text(value.deep_view()),
{
    match value {
        Some(Json::Text(s)) => nonempty(s.clone()),
        Some(Json::Number(n)) => Some(n.text.clone()),
        Some(Json::Bool(b)) => Some(
            if *b {
                "true".to_owned()
            } else {
                "false".to_owned()
            },
        ),
        _ => None,
    }
}

/// The number that a JSON value is, as a number or as a text: the integer where it is one, else
/// `float`.
pub open spec fn json_number(value: Option<JsonView>, float: Option<i64>) -> Option<i64> {
    match value {
        Some(JsonView::Number(n)) => match n.int {
            Some(n) => Some(n),
            None => float,
        },
        Some(JsonView::Text(s)) => number_in(s, float),
        _ => None,
    }
}

/// The text whose floating-point value decides which number a JSON value is, where one does.
pub open spec fn float_text(value: Option<JsonView>) -> Option<Seq<char>> {
    match value {
        Some(JsonView::Number(n)) => if n.int is None {
            Some(n.text)
        } else {
            None
        },
        Some(JsonView::Text(s)) => if i64_of(trimmed(s)) is None {
            Some(trimmed(s))
        } else {
            None
        },
        _ => None,
    }
}

/// The number that a JSON value is. `float` is what its `undecided` text gives as a floating-point
/// number, cut to a whole one.
pub fn value_i64(value: Option<&Json>, float: Option<i64>) -> (r: Option<i64>)
    ensures
        r == json_number(value.deep_view(), float),
{
    match value {
        Some(Json::Number(n)) => match n.int {
            Some(n) => Some(n),
            None => float,
        },
        Some(Json::Text(s)) => parse_i64(s.as_str(), float),
        _ => None,
    }
}

/// The text whose floating-point value decides which number a JSON value is, where one does.
pub fn undecided(value: Option<&Json>) -> (r: Option<String>)
    ensures
        r.deep_view() == float_text(value.deep_view()),
{
    match value {
        Some(Json::Number(n)) => if n.int.is_none() {
            Some(n.text.clone())
        } else {
            None
        },
        Some(Json::Text(s)) => {
            let text = trim(s.as_str());
            if read_i64(text).is_none() {
                Some(text.to_owned())
            } else {
                None
            }
        },
        _ => None,
    }
}

/// The members that are read of a content object.
#[derive(Debug)]
pub struct ContentFields {
    pub text: Option<Json>,
    pub reply_to_name: Option<Json>,
    pub image: Option<Json>,
    pub audio: Option<Json>,
    pub time: Option<Json>,
    pub like_count: Option<Json>,
    pub reply_count: Option<Json>,
}

/// The members as a mathematical value.
#[verifier::ext_equal]
pub struct ContentFieldsView {
    pub text: Option<JsonView>,
    pub reply_to_name: Option<JsonView>,
    pub image: Option<JsonView>,
    pub audio: Option<JsonView>,
    pub time: Option<JsonView>,
    pub like_count: Option<JsonView>,
    pub reply_count: Option<JsonView>,
}

/// Is the value written as `serde_json` writes it, where it is a number?
pub open spec fn well_written(value: Option<JsonView>) -> bool {
    value matches Some(JsonView::Number(n)) ==> n.consistent()
}

impl ContentFieldsView {
    /// Are the numbers among the members written as `serde_json` writes them?
    pub open spec fn consistent(self) -> bool {
        &&& well_written(self.text)
        &&& well_written(self.reply_to_name)
        &&& well_written(self.image)
        &&& well_written(self.audio)
        &&& well_written(self.time)
        &&& well_written(self.like_count)
        &&& well_written(self.reply_count)
    }
}

impl DeepView for ContentFields {
    type V = ContentFieldsView;

    open spec fn deep_view(&self) -> ContentFieldsView {
        ContentFieldsView {
            text: self.text.deep_view(),
            reply_to_name: self.reply_to_name.deep_view(),
            image: self.image.deep_view(),
            audio: self.audio.deep_view(),
            time: self.time.deep_view(),
            like_count: self.like_count.deep_view(),
            reply_count: self.reply_count.deep_view(),
        }
    }
}

/// What a content object says.
#[derive(Debug, Clone, Default)]
pub struct ContentProtocol {
    pub text: Option<String>,
    pub reply_to_name: Option<String>,
    pub image: Option<String>,
    pub audio: Option<String>,
    pub time: Option<String>,
    pub like_count: Option<i64>,
    pub reply_count: Option<i64>,
}

/// What a content object says, as a mathematical value.
#[verifier::ext_equal]
pub struct ContentProtocolView {
    pub text: Option<Seq<char>>,
    pub reply_to_name: Option<Seq<char>>,
    pub image: Option<Seq<char>>,
    pub audio: Option<Seq<char>>,
    pub time: Option<Seq<char>>,
    pub like_count: Option<i64>,
    pub reply_count: Option<i64>,
}

/// Is the text, where there is one, not blank and without white space on either side?
pub open spec fn legible_text(text: Option<Seq<char>>) -> bool {
    text matches Some(text) ==> some_text(text) == Some(text)
}

impl ContentProtocolView {
    /// Is no text of the object blank, and has none white space on either side?
    pub open spec fn legible(self) -> bool {
        &&& legible_text(self.text)
        &&& legible_text(self.reply_to_name)
        &&& legible_text(self.image)
        &&& legible_text(self.audio)
        &&& legible_text(self.time)
    }
}

impl DeepView for ContentProtocol {
    type V = ContentProtocolView;

    open spec fn deep_view(&self) -> ContentProtocolView {
        ContentProtocolView {
            text: self.text.deep_view(),
            reply_to_name: self.reply_to_name.deep_view(),
            image: self.image.deep_view(),
            audio: self.audio.deep_view(),
            time: self.time.deep_view(),
            like_count: self.like_count,
            reply_count: self.reply_count,
        }
    }
}

/// The members of an object that are read of a content object.
pub open spec fn fields_in(members: Map<Seq<char>, JsonView>) -> ContentFieldsView {
    ContentFieldsView {
        text: member(members, "text"@),
        reply_to_name: member(members, "replyToName"@),
        image: member(members, "img"@),
        audio: member(members, "audio"@),
        time: member(members, "time"@),
        like_count: member(members, "likeCount"@),
        reply_count: member(members, "replyCount"@),
    }
}

/// The members that are read of a content, where it is a JSON object.
pub open spec fn fields_of(raw: Seq<char>) -> Option<ContentFieldsView> {
    match json_object_of(trimmed(raw)) {
        Some(members) => Some(fields_in(members)),
        None => None,
    }
}

/// What the members of a content object say, where they say anything. `like` and `reply` are what
/// the undecided counts give as floating-point numbers.
pub open spec fn protocol_of(
    fields: ContentFieldsView,
    like: Option<i64>,
    reply: Option<i64>,
) -> Option<ContentProtocolView> {
    let said = ContentProtocolView {
        text: json_text(fields.text),
        reply_to_name: json_text(fields.reply_to_name),
        image: json_text(fields.image),
        audio: json_text(fields.audio),
        time: json_text(fields.time),
        like_count: json_number(fields.like_count, like),
        reply_count: json_number(fields.reply_count, reply),
    };
    if said.text is None && said.reply_to_name is None && said.image is None && said.audio is None
        && said.time is None && said.like_count is None && said.reply_count is None {
        None
    } else {
        Some(said)
    }
}

/// What a content says as a JSON object, where it is one and says anything.
pub open spec fn content_protocol(
    raw: Seq<char>,
    like: Option<i64>,
    reply: Option<i64>,
) -> Option<ContentProtocolView> {
    match fields_of(raw) {
        Some(fields) => protocol_of(fields, like, reply),
        None => None,
    }
}

/// The members that are read of a content, where it is a JSON object.
pub fn content_fields(raw: &str) -> (r: Option<ContentFields>)
    ensures
        r.deep_view() == fields_of(raw@),
        r matches Some(fields) ==> fields.deep_view().consistent(),
{
    match json_object(trim(raw)) {
        Some(object) => Some(
            ContentFields {
                text: json_member(&object, "text"),
                reply_to_name: json_member(&object, "replyToName"),
                image: json_member(&object, "img"),
                audio: json_member(&object, "audio"),
                time: json_member(&object, "time"),
                like_count: json_member(&object, "likeCount"),
                reply_count: json_member(&object, "replyCount"),
            },
        ),
        None => None,
    }
}

/// What the members of a content object say, where they say anything. `like` and `reply` are what
/// the undecided counts give as floating-point numbers.
pub fn read_protocol(fields: &ContentFields, like: Option<i64>, reply: Option<i64>) -> (r: Option<
    ContentProtocol,
>)
    ensures
        r.deep_view() == protocol_of(fields.deep_view(), like, reply),
        fields.deep_view().consistent() ==> (r matches Some(said) ==> said.deep_view().legible()),
{
    proof {
        if fields.deep_view().consistent() {
            law_content_object_is_legible(fields.deep_view(), like, reply);
        }
    }
    let said = ContentProtocol {
        text: value_string(fields.text.as_ref()),
        reply_to_name: value_string(fields.reply_to_name.as_ref()),
        image: value_string(fields.image.as_ref()),
        audio: value_string(fields.audio.as_ref()),
        time: value_string(fields.time.as_ref()),
        like_count: value_i64(fields.like_count.as_ref(), like),
        reply_count: value_i64(fields.reply_count.as_ref(), reply),
    };
    if said.text.is_none() && said.reply_to_name.is_none() && said.image.is_none()
        && said.audio.is_none() && said.time.is_none() && said.like_count.is_none()
        && said.reply_count.is_none() {
        None
    } else {
        Some(said)
    }
}

/// What a content says as a JSON object, where it is one and says anything. `like` and `reply` are
/// what the undecided counts give as floating-point numbers.
pub fn parse_content_protocol(raw: &str, like: Option<i64>, reply: Option<i64>) -> (r: Option<
    ContentProtocol,
>)
    ensures
        r.deep_view() == content_protocol(raw@, like, reply),
        r matches Some(said) ==> said.deep_view().legible(),
{
    match content_fields(raw) {
        Some(fields) => read_protocol(&fields, like, reply),
        None => None,
    }
}

/// Does this character part two badges?
pub open spec fn is_separator(c: char) -> bool {
    c == '\n' || c == '|' || c == ','
}

/// The texts between the separators.
pub open spec fn pieces(s: Seq<char>) -> Seq<Seq<char>>
    decreases s.len(),
{
    if s.len() == 0 {
        seq![Seq::empty()]
    } else {
        let before = pieces(s.drop_last());
        if is_separator(s.last()) {
            before.push(Seq::empty())
        } else {
            before.drop_last().push(before.last().push(s.last()))
        }
    }
}

/// The texts that are not blank, without white space on either side.
pub open spec fn kept(texts: Seq<Seq<char>>) -> Seq<Seq<char>>
    decreases texts.len(),
{
    if texts.len() == 0 {
        Seq::empty()
    } else {
        let before = kept(texts.drop_last());
        match some_text(texts.last()) {
            Some(text) => before.push(text),
            None => before,
        }
    }
}

/// Does the text stand in square brackets?
pub open spec fn in_brackets(s: Seq<char>) -> bool {
    s.len() > 0 && s[0] == '[' && s.last() == ']'
}

/// The badges in a text without white space on either side: those of the list that it is, else the
/// texts between the separators. `list` is the array of texts that the text is as JSON.
pub open spec fn badges_in(text: Seq<char>, list: Option<Seq<Seq<char>>>) -> Seq<Seq<char>> {
    if text.len() == 0 {
        Seq::empty()
    } else if in_brackets(text) && list is Some {
        kept(list->0)
    } else {
        kept(pieces(text))
    }
}

/// The badges in a text.
pub open spec fn badges_of(value: Seq<char>) -> Seq<Seq<char>> {
    badges_in(trimmed(value), json_texts_of(trimmed(value)))
}

/// The texts between the separators.
fn split_pieces(s: &str) -> (r: Vec<String>)
    ensures
        r.deep_view() == pieces(s@),
{
    let v = to_chars(s);
    let mut r: Vec<String> = Vec::new();
    let mut from: usize = 0;
    let mut i: usize = 0;
    proof {
        assert(s@.take(0).len() == 0);
        assert(s@.subrange(0, 0) =~= Seq::empty());
        assert(r.deep_view().push(s@.subrange(0, 0)) =~= pieces(s@.take(0)));
    }
    while i < v.len()
        invariant
            v@ == s@,
            from <= i <= v.len(),
            r.deep_view().push(s@.subrange(from as int, i as int)) == pieces(s@.take(i as int)),
        decreases v.len() - i,
    {
        let ghost before = r.deep_view();
        let ghost piece = s@.subrange(from as int, i as int);
        proof {
            assert(s@.take(i + 1).drop_last() =~= s@.take(i as int));
            assert(s@.take(i + 1).last() == v@[i as int]);
        }
        if v[i] == '\n' || v[i] == '|' || v[i] == ',' {
            r.push(s.substring_char(from, i).to_owned());
            from = i + 1;
            proof {
                assert(r.deep_view() =~= before.push(piece));
                assert(s@.subrange(from as int, i + 1) =~= Seq::empty());
            }
        } else {
            proof {
                assert(before.push(piece).drop_last() =~= before);
                assert(s@.subrange(from as int, i + 1) =~= piece.push(v@[i as int]));
            }
        }
        i += 1;
    }
    let ghost before = r.deep_view();
    r.push(s.substring_char(from, i).to_owned());
    proof {
        assert(s@.take(i as int) =~= s@);
        assert(r.deep_view() =~= before.push(s@.subrange(from as int, i as int)));
    }
    r
}

/// The texts that are not blank, without white space on either side.
fn keep(texts: Vec<String>) -> (r: Vec<String>)
    ensures
        r.deep_view() == kept(texts.deep_view()),
{
    let mut r: Vec<String> = Vec::new();
    let mut i: usize = 0;
    assert(texts.deep_view().take(0).len() == 0);
    assert(r.deep_view() =~= Seq::empty());
    while i < texts.len()
        invariant
            i <= texts.len(),
            r.deep_view() == kept(texts.deep_view().take(i as int)),
        decreases texts.len() - i,
    {
        let ghost before = r.deep_view();
        proof {
            let all = texts.deep_view();
            assert(all.take(i + 1).drop_last() =~= all.take(i as int));
            assert(all.take(i + 1).last() == texts@[i as int]@);
        }
        match nonempty(texts[i].clone()) {
            Some(text) => {
                r.push(text);
                assert(r.deep_view() =~= before.push(text@));
            },
            None => {},
        }
        i += 1;
    }
    assert(texts.deep_view().take(i as int) =~= texts.deep_view());
    r
}

/// Does the text stand in square brackets?
fn bracketed(text: &str) -> (r: bool)
    ensures
        r == in_brackets(text@),
{
    let v = to_chars(text);
    v.len() > 0 && v[0] == '[' && v[v.len() - 1] == ']'
}

/// The badges in a text without white space on either side. `list` is the array of texts that the
/// text is as JSON.
pub fn read_badges(text: &str, list: Option<Vec<String>>) -> (r: Vec<String>)
    ensures
        r.deep_view() == badges_in(text@, list.deep_view()),
{
    if text.is_empty() {
        let r: Vec<String> = Vec::new();
        assert(r.deep_view() =~= Seq::empty());
        return r;
    }
    if bracketed(text) {
        match list {
            Some(texts) => {
                return keep(texts);
            },
            None => {},
        }
    }
    keep(split_pieces(text))
}

/// The badges in a text: those of the JSON array that it is, else the texts between line breaks,
/// bars and commas; none of them blank.
pub fn split_badges(value: String) -> (r: Vec<String>)
    ensures
        r.deep_view() == badges_in(trimmed(value@), json_texts_of(trimmed(value@))),
{
    let text = trim(value.as_str());
    let list = if bracketed(text) {
        json_texts(text)
    } else {
        None
    };
    read_badges(text, list)
}

} // verus!
