use vstd::prelude::*;
use crate::card::{card_of_body, parse_card_body};
use crate::hints::{
    Hint, get_hint_bool, get_hint_i32, get_hint_string, get_hint_u8, hint_bool, hint_i32,
    hint_text, hint_u8, image_of, parse_actions, parse_image, action_matches, text_view,
};

verus! {

/// Urgency levels of the notification protocol.
#[derive(Debug, Clone, Copy, PartialEq, Eq, Structural)]
pub enum Urgency {
    Low,
    Normal,
    Critical,
}

/// The urgency that the protocol's urgency byte stands for: 0 is low, 2 is
/// critical, every other value is normal.
pub open spec fn urgency_of_byte(v: u8) -> Urgency {
    if v == 0 {
        Urgency::Low
    } else if v == 2 {
        Urgency::Critical
    } else {
        Urgency::Normal
    }
}

impl From<u8> for Urgency {
    fn from(v: u8) -> (r: Urgency) {
        match v {
            0 => Urgency::Low,
            2 => Urgency::Critical,
            _ => Urgency::Normal,
        }
    }
}

impl vstd::std_specs::convert::FromSpecImpl<u8> for Urgency {
    open spec fn obeys_from_spec() -> bool {
        true
    }

    open spec fn from_spec(v: u8) -> Urgency {
        urgency_of_byte(v)
    }
}

/// Why a notification left the store.
#[derive(Debug, Clone, Copy, PartialEq, Eq, Structural)]
pub enum CloseReason {
    Expired,
    Dismissed,
    Closed,
    Undefined,
}

impl CloseReason {
    /// The reason code that the protocol's closing signal carries.
    pub open spec fn spec_code(self) -> u32 {
        match self {
            CloseReason::Expired => 1,
            CloseReason::Dismissed => 2,
            CloseReason::Closed => 3,
            CloseReason::Undefined => 4,
        }
    }

    /// The name under which the audit log records a close for this reason.
    pub open spec fn spec_event(self) -> Seq<char> {
        match self {
            CloseReason::Expired => "expired"@,
            CloseReason::Dismissed => "dismissed"@,
            CloseReason::Closed => "closed"@,
            CloseReason::Undefined => "undefined"@,
        }
    }

    pub fn code(&self) -> (r: u32)
        ensures
            r == self.spec_code(),
    {
        match self {
            CloseReason::Expired => 1,
            CloseReason::Dismissed => 2,
            CloseReason::Closed => 3,
            CloseReason::Undefined => 4,
        }
    }

    pub fn event_name(&self) -> (r: String)
        ensures
            r@ == self.spec_event(),
    {
        match self {
            CloseReason::Expired => String::from_str("expired"),
            CloseReason::Dismissed => String::from_str("dismissed"),
            CloseReason::Closed => String::from_str("closed"),
            CloseReason::Undefined => String::from_str("undefined"),
        }
    }
}

impl Urgency {
    /// The urgency byte of the protocol.
    pub open spec fn spec_level(self) -> u8 {
        match self {
            Urgency::Low => 0,
            Urgency::Normal => 1,
            Urgency::Critical => 2,
        }
    }

    pub fn level(&self) -> (r: u8)
        ensures
            r == self.spec_level(),
    {
        match self {
            Urgency::Low => 0,
            Urgency::Normal => 1,
            Urgency::Critical => 2,
        }
    }

    /// The urgency's name as the audit log records it.
    pub open spec fn spec_name(self) -> Seq<char> {
        match self {
            Urgency::Low => "Low"@,
            Urgency::Normal => "Normal"@,
            Urgency::Critical => "Critical"@,
        }
    }

    pub fn name(&self) -> (r: String)
        ensures
            r@ == self.spec_name(),
    {
        match self {
            Urgency::Low => String::from_str("Low"),
            Urgency::Normal => String::from_str("Normal"),
            Urgency::Critical => String::from_str("Critical"),
        }
    }
}

/// An action button attached to a notification.
#[derive(Debug, Clone, PartialEq, Eq)]
pub struct Action {
    pub key: String,
    pub label: String,
}

/// The picture a notification shows: raw pixels, a file path, a themed icon
/// name, or nothing.
#[derive(Debug, Clone, PartialEq, Eq)]
pub enum ImageData {
    Raw {
        width: i32,
        height: i32,
        rowstride: i32,
        has_alpha: bool,
        bits_per_sample: i32,
        channels: i32,
        data: Vec<u8>,
    },
    Path(String),
    Name(String),
    Empty,
}

/// One choice of a multiple-choice card.
#[derive(Debug, Clone, PartialEq, Eq)]
pub struct CardChoice {
    pub id: String,
    pub label: String,
}

/// A structured interactive payload carried in a notification's body.
#[derive(Debug, Clone, PartialEq, Eq)]
pub enum NotificationCard {
    MultipleChoice { question: String, choices: Vec<CardChoice>, allow_other: bool },
    Permission { question: String, allow_label: String },
}

/// The mathematical content of a card: its texts as character sequences.
pub enum CardModel {
    MultipleChoice { question: Seq<char>, choices: Seq<(Seq<char>, Seq<char>)>, allow_other: bool },
    Permission { question: Seq<char>, allow_label: Seq<char> },
}

pub open spec fn choice_view(c: CardChoice) -> (Seq<char>, Seq<char>) {
    (c.id@, c.label@)
}

impl View for NotificationCard {
    type V = CardModel;

    open spec fn view(&self) -> CardModel {
        match self {
            NotificationCard::MultipleChoice { question, choices, allow_other } => {
                CardModel::MultipleChoice {
                    question: question@,
                    choices: choices@.map_values(|c: CardChoice| choice_view(c)),
                    allow_other: *allow_other,
                }
            },
            NotificationCard::Permission { question, allow_label } => CardModel::Permission {
                question: question@,
                allow_label: allow_label@,
            },
        }
    }
}

pub open spec fn card_view(c: Option<NotificationCard>) -> Option<CardModel> {
    match c {
        Some(card) => Some(card@),
        None => None,
    }
}

/// A point in time: whole seconds since the Unix epoch and the nanoseconds
/// past that second.
#[derive(Debug, Clone, Copy, PartialEq, Eq, Structural)]
pub struct Timestamp {
    pub secs: i64,
    pub nanos: u32,
}

/// Whether chrono's DateTime::from_timestamp accepts these seconds and
/// nanoseconds as a UTC time.
pub uninterp spec fn utc_representable(secs: int, nanos: int) -> bool;

/// Relies on chrono's `From<SystemTime> for DateTime<Utc>`: the current time,
/// a clock before the Unix epoch included, whose sub-second part is below one
/// second. As chrono documents for DateTime::from_timestamp, the time's
/// seconds and nanoseconds round-trip, so chrono accepts them again.
#[verifier::external_body]
pub(crate) fn utc_now() -> (r: Timestamp)
    ensures
        r.nanos < 1_000_000_000,
        utc_representable(r.secs as int, r.nanos as int),
{
    let now = chrono::DateTime::<chrono::Utc>::from(std::time::SystemTime::now());
    Timestamp { secs: now.timestamp(), nanos: now.timestamp_subsec_nanos() }
}

/// Relies on uuid's Uuid::new_v4 and its display form: a fresh random
/// identifier in the hyphenated form of 36 characters.
#[verifier::external_body]
fn new_correlation_id() -> (r: String)
    ensures
        r@.len() == 36,
{
    uuid::Uuid::new_v4().to_string()
}

/// A notification as the store holds it.
#[derive(Debug, Clone)]
pub struct Notification {
    /// Identity in the store; 0 until the store assigns one.
    pub id: u32,
    /// Correlation identifier of the audit log, unique to this notification.
    pub uuid: String,
    pub app_name: String,
    pub summary: String,
    pub body: String,
    /// Icon name or path that the sender passed.
    pub app_icon: String,
    pub actions: Vec<Action>,
    pub urgency: Urgency,
    /// The protocol's expiry: 0 never expires, negative defers to the
    /// server, positive is milliseconds.
    pub timeout: i32,
    /// Notifications that share a group are tracked together.
    pub group: Option<String>,
    /// Dismissal requires an explicit action.
    pub acknowledge_to_dismiss: bool,
    pub image: ImageData,
    pub created_at: Timestamp,
    /// Printable snapshot of the hints that the decoder does not consume.
    pub hints: Vec<(String, String)>,
    pub desktop_entry: Option<String>,
    /// Shown as a popup only, never kept in the history.
    pub transient: bool,
    /// Progress value, if the sender gave one.
    pub progress: Option<i32>,
    pub css_class: Option<String>,
    pub card: Option<NotificationCard>,
}

/// Hints that the decoder consumes and the snapshot leaves out.
pub open spec fn is_consumed_key(k: Seq<char>) -> bool {
    ||| k == "urgency"@
    ||| k == "image-data"@
    ||| k == "image_data"@
    ||| k == "image-path"@
    ||| k == "image_path"@
    ||| k == "icon_data"@
}

/// Keys and renderings of the hints that are not consumed, in their order.
pub open spec fn hint_snapshot(hs: Seq<Hint>) -> Seq<(Seq<char>, Seq<char>)>
    decreases hs.len(),
{
    if hs.len() == 0 {
        seq![]
    } else {
        let rest = hint_snapshot(hs.drop_last());
        if is_consumed_key(hs.last().key@) {
            rest
        } else {
            rest.push((hs.last().key@, hs.last().text@))
        }
    }
}

pub open spec fn pair_view(p: (String, String)) -> (Seq<char>, Seq<char>) {
    (p.0@, p.1@)
}

pub open spec fn pairs_view(ps: Seq<(String, String)>) -> Seq<(Seq<char>, Seq<char>)> {
    ps.map_values(|p: (String, String)| pair_view(p))
}

fn consumed_key(k: &String) -> (r: bool)
    ensures
        r == is_consumed_key(k@),
{
    *k == String::from_str("urgency") || *k == String::from_str("image-data") || *k
        == String::from_str("image_data") || *k == String::from_str("image-path") || *k
        == String::from_str("image_path") || *k == String::from_str("icon_data")
}

/// The printable snapshot of the hints that the decoder does not consume.
pub fn snapshot_hints(hints: &Vec<Hint>) -> (r: Vec<(String, String)>)
    ensures
        pairs_view(r@) == hint_snapshot(hints@),
{
    let mut out: Vec<(String, String)> = Vec::new();
    let mut i: usize = 0;
    while i < hints.len()
        invariant
            i <= hints@.len(),
            pairs_view(out@) == hint_snapshot(hints@.subrange(0, i as int)),
        decreases hints@.len() - i,
    {
        let ghost before = out@;
        assert(hints@.subrange(0, i + 1).drop_last() =~= hints@.subrange(0, i as int));
        if !consumed_key(&hints[i].key) {
            out.push((hints[i].key.clone(), hints[i].text.clone()));
            assert(pairs_view(out@) =~= pairs_view(before).push(pair_view(out@.last())));
        }
        i = i + 1;
    }
    assert(hints@.subrange(0, hints@.len() as int) =~= hints@);
    out
}

/// Everything that decoding a request determines of a notification: all but
/// its correlation identifier and its creation time.
pub open spec fn decoded(
    n: Notification,
    id: u32,
    app_name: Seq<char>,
    app_icon: Seq<char>,
    summary: Seq<char>,
    body: Seq<char>,
    actions: Seq<String>,
    hints: Seq<Hint>,
    expire_timeout: i32,
) -> bool {
    &&& n.id == id
    &&& n.app_name@ == app_name
    &&& n.app_icon@ == app_icon
    &&& n.summary@ == summary
    &&& n.body@ == body
    &&& n.actions@.len() == actions.len() / 2
    &&& forall|i: int| 0 <= i < n.actions@.len() ==> action_matches(#[trigger] n.actions@[i], actions, i)
    &&& n.urgency == match hint_u8(hints, "urgency"@) {
        Some(v) => urgency_of_byte(v),
        None => Urgency::Normal,
    }
    &&& n.timeout == expire_timeout
    &&& text_view(n.group) == hint_text(hints, "x-group"@)
    &&& card_view(n.card) == card_of_body(body)
    &&& n.acknowledge_to_dismiss == (hint_bool(hints, "x-acknowledge"@) == Some(true)
        || n.card is Some)
    &&& text_view(n.desktop_entry) == hint_text(hints, "desktop-entry"@)
    &&& n.transient == (hint_bool(hints, "transient"@) == Some(true))
    &&& n.progress == hint_i32(hints, "value"@)
    &&& text_view(n.css_class) == hint_text(hints, "x-css-class"@)
    &&& n.image@ == image_of(hints, app_icon)
    &&& pairs_view(n.hints@) == hint_snapshot(hints)
}

impl Notification {
    /// Decodes one request of the protocol into a notification; every hint
    /// that is absent or of an unexpected type falls back to its default.
    pub fn new(
        id: u32,
        app_name: String,
        app_icon: String,
        summary: String,
        body: String,
        actions_raw: Vec<String>,
        hints: Vec<Hint>,
        expire_timeout: i32,
    ) -> (r: Notification)
        ensures
            decoded(
                r,
                id,
                app_name@,
                app_icon@,
                summary@,
                body@,
                actions_raw@,
                hints@,
                expire_timeout,
            ),
            r.uuid@.len() == 36,
            r.created_at.nanos < 1_000_000_000,
            utc_representable(r.created_at.secs as int, r.created_at.nanos as int),
    {
        let card = parse_card_body(body.as_str());
        let actions = parse_actions(&actions_raw);
        let urgency = match get_hint_u8(&hints, "urgency") {
            Some(v) => Urgency::from(v),
            None => Urgency::Normal,
        };
        let group = get_hint_string(&hints, "x-group");
        let acknowledge = match get_hint_bool(&hints, "x-acknowledge") {
            Some(b) => b,
            None => false,
        };
        let acknowledge_to_dismiss = acknowledge || card.is_some();
        let desktop_entry = get_hint_string(&hints, "desktop-entry");
        let transient = match get_hint_bool(&hints, "transient") {
            Some(b) => b,
            None => false,
        };
        let progress = get_hint_i32(&hints, "value");
        let css_class = get_hint_string(&hints, "x-css-class");
        let image = parse_image(&hints, &app_icon);
        let hints_simple = snapshot_hints(&hints);
        Notification {
            id,
            uuid: new_correlation_id(),
            app_name,
            summary,
            body,
            app_icon,
            actions,
            urgency,
            timeout: expire_timeout,
            group,
            acknowledge_to_dismiss,
            image,
            created_at: utc_now(),
            hints: hints_simple,
            desktop_entry,
            transient,
            progress,
            css_class,
            card,
        }
    }
}

/// One lifecycle event of the audit log. Full content is recorded on
/// `received` only; the other events carry identity, summary and group.
#[derive(Debug, Clone, PartialEq, Eq)]
pub struct LogEntry {
    pub uuid: String,
    pub timestamp: String,
    /// `received`, `action`, `expired`, `dismissed`, `closed` or `undefined`.
    pub event: String,
    pub notification_id: Option<u32>,
    pub app_name: Option<String>,
    pub app_icon: Option<String>,
    pub summary: Option<String>,
    pub body: Option<String>,
    pub created_at: Option<String>,
    pub urgency: Option<String>,
    pub desktop_entry: Option<String>,
    pub hints: Option<Vec<(String, String)>>,
    pub action_key: Option<String>,
    pub group: Option<String>,
}

} // verus!
