use vstd::prelude::*;
use crate::notification::{CardChoice, CardModel, NotificationCard, card_view, choice_view};

verus! {

/// A JSON document as a tree of plain values. Numbers keep their text.
#[derive(Debug)]
pub enum Json {
    Null,
    Bool(bool),
    Number(String),
    Str(String),
    Array(Vec<Json>),
    Object(Vec<(String, Json)>),
}

/// What serde_json makes of a text: the document, or nothing where the text
/// is not exactly one JSON value.
pub uninterp spec fn json_of(text: Seq<char>) -> Option<Json>;

#[verifier::external_type_specification]
#[verifier::external_body]
pub struct ExJsonValue(serde_json::Value);

/// Relies on serde_json::from_str: parses the text as one JSON value and
/// fails on anything else.
#[verifier::external_body]
fn parse_json(text: &str) -> (r: Option<Json>)
    ensures
        r == json_of(text@),
{
    serde_json::from_str::<serde_json::Value>(text).ok().map(json_tree)
}

/// Moves a serde_json value into a `Json` tree, node for node; part of
/// `parse_json`.
#[verifier::external_body]
fn json_tree(v: serde_json::Value) -> Json {
    match v {
        serde_json::Value::Null => Json::Null,
        serde_json::Value::Bool(b) => Json::Bool(b),
        serde_json::Value::Number(n) => Json::Number(n.to_string()),
        serde_json::Value::String(s) => Json::Str(s),
        serde_json::Value::Array(a) => Json::Array(a.into_iter().map(json_tree).collect()),
        serde_json::Value::Object(o) => Json::Object(
            o.into_iter().map(|(k, x)| (k, json_tree(x))).collect(),
        ),
    }
}

/// The value of the first member named `key`, looking from position `i` on.
pub open spec fn member_from(fields: Seq<(String, Json)>, key: Seq<char>, i: int) -> Option<Json>
    decreases fields.len() - i,
{
    if i < 0 || i >= fields.len() {
        None
    } else if fields[i].0@ == key {
        Some(fields[i].1)
    } else {
        member_from(fields, key, i + 1)
    }
}

/// The value of the member named `key` of an object's member list.
pub open spec fn member(fields: Seq<(String, Json)>, key: Seq<char>) -> Option<Json> {
    member_from(fields, key, 0)
}

/// A choice: an object with a string `id` and a string `label`.
pub open spec fn choice_of(j: Json) -> Option<(Seq<char>, Seq<char>)> {
    match j {
        Json::Object(fs) => match (member(fs@, "id"@), member(fs@, "label"@)) {
            (Some(Json::Str(id)), Some(Json::Str(label))) => Some((id@, label@)),
            _ => None,
        },
        _ => None,
    }
}

/// The text of a required string member.
pub open spec fn required_text(fs: Seq<(String, Json)>, key: Seq<char>) -> Option<Seq<char>> {
    match member(fs, key) {
        Some(Json::Str(s)) => Some(s@),
        _ => None,
    }
}

pub open spec fn multiple_choice_of(fs: Seq<(String, Json)>) -> Option<CardModel> {
    match (required_text(fs, "question"@), member(fs, "choices"@)) {
        (Some(q), Some(Json::Array(items))) => {
            let items = items@;
            if forall|i: int| 0 <= i < items.len() ==> (#[trigger] choice_of(items[i])) is Some {
                let choices = items.map_values(|c: Json| choice_of(c)->0);
                match member(fs, "allow_other"@) {
                    None => Some(
                        CardModel::MultipleChoice { question: q, choices, allow_other: false },
                    ),
                    Some(Json::Bool(b)) => Some(
                        CardModel::MultipleChoice { question: q, choices, allow_other: b },
                    ),
                    _ => None,
                }
            } else {
                None
            }
        },
        _ => None,
    }
}

pub open spec fn permission_of(fs: Seq<(String, Json)>) -> Option<CardModel> {
    match required_text(fs, "question"@) {
        Some(q) => match member(fs, "allow_label"@) {
            None => Some(CardModel::Permission { question: q, allow_label: "Allow"@ }),
            Some(Json::Str(l)) => Some(CardModel::Permission { question: q, allow_label: l@ }),
            _ => None,
        },
        None => None,
    }
}

/// The card that a JSON document describes: an object whose `xnotid_card`
/// marker is the string `v1` and whose `type` names a card kind with its
/// required members present; every other document describes none.
pub open spec fn card_of(j: Json) -> Option<CardModel> {
    match j {
        Json::Object(fs) => {
            let fs = fs@;
            if required_text(fs, "xnotid_card"@) != Some("v1"@) {
                None
            } else if required_text(fs, "type"@) == Some("multiple-choice"@) {
                multiple_choice_of(fs)
            } else if required_text(fs, "type"@) == Some("permission"@) {
                permission_of(fs)
            } else {
                None
            }
        },
        _ => None,
    }
}

/// The card that a notification body carries.
pub open spec fn card_of_body(body: Seq<char>) -> Option<CardModel> {
    match json_of(body) {
        Some(j) => card_of(j),
        None => None,
    }
}

/// The member named `key` of an object's member list.
pub fn member_of<'a>(fields: &'a Vec<(String, Json)>, key: &str) -> (r: Option<&'a Json>)
    ensures
        match r {
            Some(v) => member(fields@, key@) == Some(*v),
            None => member(fields@, key@) is None,
        },
{
    let k = String::from_str(key);
    let mut i: usize = 0;
    while i < fields.len()
        invariant
            i <= fields@.len(),
            k@ == key@,
            member(fields@, key@) == member_from(fields@, key@, i as int),
        decreases fields@.len() - i,
    {
        if fields[i].0 == k {
            return Some(&fields[i].1);
        }
        i = i + 1;
    }
    None
}

/// The text of the string member named `key`, if there is one.
fn text_member<'a>(fields: &'a Vec<(String, Json)>, key: &str) -> (r: Option<&'a String>)
    ensures
        match r {
            Some(s) => required_text(fields@, key@) == Some(s@),
            None => required_text(fields@, key@) is None,
        },
{
    match member_of(fields, key) {
        Some(Json::Str(s)) => Some(s),
        _ => None,
    }
}

fn text_is(s: Option<&String>, lit: &str) -> (r: bool)
    ensures
        r == (match s {
            Some(t) => t@ == lit@,
            None => false,
        }),
{
    match s {
        Some(t) => *t == String::from_str(lit),
        None => false,
    }
}

fn choice_from_json(j: &Json) -> (r: Option<CardChoice>)
    ensures
        match r {
            Some(c) => choice_of(*j) == Some(choice_view(c)),
            None => choice_of(*j) is None,
        },
{
    match j {
        Json::Object(fs) => match (text_member(fs, "id"), text_member(fs, "label")) {
            (Some(id), Some(label)) => Some(CardChoice { id: id.clone(), label: label.clone() }),
            _ => None,
        },
        _ => None,
    }
}

fn multiple_choice_from(fs: &Vec<(String, Json)>) -> (r: Option<NotificationCard>)
    ensures
        card_view(r) == multiple_choice_of(fs@),
{
    let question = match text_member(fs, "question") {
        Some(q) => q,
        None => return None,
    };
    let items = match member_of(fs, "choices") {
        Some(Json::Array(items)) => items,
        _ => return None,
    };
    let mut choices: Vec<CardChoice> = Vec::new();
    let mut i: usize = 0;
    while i < items.len()
        invariant
            i <= items@.len(),
            member(fs@, "choices"@) == Some(Json::Array(*items)),
            required_text(fs@, "question"@) == Some(question@),
            choices@.len() == i,
            forall|k: int| 0 <= k < i ==> (#[trigger] choice_of(items@[k])) is Some,
            forall|k: int| 0 <= k < i ==> choice_view(#[trigger] choices@[k]) == choice_of(items@[k])->0,
        decreases items@.len() - i,
    {
        match choice_from_json(&items[i]) {
            Some(c) => choices.push(c),
            None => {
                assert(choice_of(items@[i as int]) is None);
                return None;
            },
        }
        i = i + 1;
    }
    let allow_other = match member_of(fs, "allow_other") {
        None => false,
        Some(Json::Bool(b)) => *b,
        _ => return None,
    };
    let r = NotificationCard::MultipleChoice { question: question.clone(), choices, allow_other };
    assert(choices@.map_values(|c: CardChoice| choice_view(c)) =~= items@.map_values(
        |c: Json| choice_of(c)->0,
    ));
    Some(r)
}

/// The label of a permission card's allow button where the card names none.
pub fn default_allow_label() -> (r: String)
    ensures
        r@ == "Allow"@,
{
    String::from_str("Allow")
}

fn permission_from(fs: &Vec<(String, Json)>) -> (r: Option<NotificationCard>)
    ensures
        card_view(r) == permission_of(fs@),
{
    let question = match text_member(fs, "question") {
        Some(q) => q,
        None => return None,
    };
    let allow_label = match member_of(fs, "allow_label") {
        None => default_allow_label(),
        Some(Json::Str(l)) => l.clone(),
        _ => return None,
    };
    Some(NotificationCard::Permission { question: question.clone(), allow_label })
}

/// The card that a parsed JSON document describes.
pub fn card_from_json(j: &Json) -> (r: Option<NotificationCard>)
    ensures
        card_view(r) == card_of(*j),
{
    match j {
        Json::Object(fs) => {
            if !text_is(text_member(fs, "xnotid_card"), "v1") {
                return None;
            }
            let kind = text_member(fs, "type");
            if text_is(kind, "multiple-choice") {
                multiple_choice_from(fs)
            } else if text_is(kind, "permission") {
                permission_from(fs)
            } else {
                None
            }
        },
        _ => None,
    }
}

/// The card carried by a notification body: the body is read as JSON, and a
/// body that is no JSON carries none.
pub fn parse_card_body(body: &str) -> (r: Option<NotificationCard>)
    ensures
        card_view(r) == card_of_body(body@),
{
    match parse_json(body) {
        Some(j) => card_from_json(&j),
        None => None,
    }
}

} // verus!
