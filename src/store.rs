use vstd::prelude::*;
use std::collections::HashMap;
use crate::config::Config;
use crate::hints::text_view;
use crate::notification::{
    CloseReason, LogEntry, Notification, Timestamp, Urgency, pairs_view, pair_view, utc_now,
    utc_representable,
};

verus! {

broadcast use vstd::std_specs::hash::group_hash_axioms;

// ---------------------------------------------------------------------------
// Sequences of ids

/// `s` with every occurrence of `x` taken out, the rest in its order.
pub open spec fn without(s: Seq<u32>, x: u32) -> Seq<u32>
    decreases s.len(),
{
    if s.len() == 0 {
        s
    } else {
        let r = without(s.drop_last(), x);
        if s.last() == x {
            r
        } else {
            r.push(s.last())
        }
    }
}

proof fn lemma_push_contains(r: Seq<u32>, a: u32, y: u32)
    ensures
        r.push(a).contains(y) <==> (r.contains(y) || a == y),
{
    if r.contains(y) {
        let i = choose|i: int| 0 <= i < r.len() && r[i] == y;
        assert(r.push(a)[i] == y);
    }
    if a == y {
        assert(r.push(a)[r.len() as int] == y);
    }
    if r.push(a).contains(y) && a != y {
        let i = choose|i: int| 0 <= i < r.push(a).len() && r.push(a)[i] == y;
        assert(r[i] == y);
    }
}

pub proof fn lemma_without_contains(s: Seq<u32>, x: u32, y: u32)
    ensures
        without(s, x).contains(y) <==> (s.contains(y) && y != x),
    decreases s.len(),
{
    if s.len() > 0 {
        let d = s.drop_last();
        lemma_without_contains(d, x, y);
        assert(s =~= d.push(s.last()));
        lemma_push_contains(d, s.last(), y);
        if s.last() != x {
            lemma_push_contains(without(d, x), s.last(), y);
        }
    }
}

pub proof fn lemma_without_no_duplicates(s: Seq<u32>, x: u32)
    requires
        s.no_duplicates(),
    ensures
        without(s, x).no_duplicates(),
    decreases s.len(),
{
    if s.len() > 0 {
        lemma_without_no_duplicates(s.drop_last(), x);
        lemma_without_contains(s.drop_last(), x, s.last());
        assert(!s.drop_last().contains(s.last())) by {
            if s.drop_last().contains(s.last()) {
                let i = choose|i: int| 0 <= i < s.drop_last().len() && s.drop_last()[i] == s.last();
                assert(s[i] == s[s.len() - 1]);
            }
        }
    }
}

/// Taking out the first element of a sequence without repeats drops it.
pub proof fn lemma_without_first(s: Seq<u32>)
    requires
        s.no_duplicates(),
        s.len() > 0,
    ensures
        without(s, s[0]) == s.drop_first(),
    decreases s.len(),
{
    if s.len() == 1 {
        assert(without(s.drop_last(), s[0]) == s.drop_last());
        assert(s.drop_first() =~= s.drop_last());
    } else {
        let d = s.drop_last();
        assert(d.no_duplicates());
        lemma_without_first(d);
        assert(d[0] == s[0]);
        assert(s.last() != s[0]);
        assert(d.drop_first().push(s.last()) =~= s.drop_first());
    }
}

/// A copy of `v` with every occurrence of `x` taken out.
fn remove_id(v: &Vec<u32>, x: u32) -> (r: Vec<u32>)
    ensures
        r@ == without(v@, x),
{
    let mut out: Vec<u32> = Vec::new();
    let mut i: usize = 0;
    while i < v.len()
        invariant
            i <= v@.len(),
            out@ == without(v@.subrange(0, i as int), x),
        decreases v@.len() - i,
    {
        assert(v@.subrange(0, i + 1).drop_last() =~= v@.subrange(0, i as int));
        if v[i] != x {
            out.push(v[i]);
        }
        i = i + 1;
    }
    assert(v@.subrange(0, v@.len() as int) =~= v@);
    out
}

fn contains_id(v: &Vec<u32>, x: u32) -> (r: bool)
    ensures
        r == v@.contains(x),
{
    let mut i: usize = 0;
    while i < v.len()
        invariant
            i <= v@.len(),
            forall|k: int| 0 <= k < i ==> v@[k] != x,
        decreases v@.len() - i,
    {
        if v[i] == x {
            return true;
        }
        i = i + 1;
    }
    false
}

// ---------------------------------------------------------------------------
// The group index

/// The group index as keys and id sequences.
pub open spec fn groups_view(gs: Seq<(String, Vec<u32>)>) -> Seq<(Seq<char>, Seq<u32>)> {
    gs.map_values(|e: (String, Vec<u32>)| (e.0@, e.1@))
}

/// Position of the first entry keyed `g`, looking from `i` on; -1 if none.
pub open spec fn group_pos_from(gs: Seq<(Seq<char>, Seq<u32>)>, g: Seq<char>, i: int) -> int
    decreases gs.len() - i,
{
    if i < 0 || i >= gs.len() {
        -1
    } else if gs[i].0 == g {
        i
    } else {
        group_pos_from(gs, g, i + 1)
    }
}

/// Position of the entry keyed `g`; -1 if none.
pub open spec fn group_pos(gs: Seq<(Seq<char>, Seq<u32>)>, g: Seq<char>) -> int {
    group_pos_from(gs, g, 0)
}

pub open spec fn keys_unique(gs: Seq<(Seq<char>, Seq<u32>)>) -> bool {
    forall|i: int, j: int| 0 <= i < gs.len() && 0 <= j < gs.len() && i != j ==> gs[i].0 != gs[j].0
}

proof fn lemma_group_pos_from(gs: Seq<(Seq<char>, Seq<u32>)>, g: Seq<char>, i: int)
    requires
        0 <= i,
    ensures
        ({
            let p = group_pos_from(gs, g, i);
            &&& p == -1 || (i <= p < gs.len() && gs[p].0 == g)
            &&& forall|k: int| i <= k < gs.len() && (p == -1 || k < p) ==> gs[k].0 != g
        }),
    decreases gs.len() - i,
{
    if i < gs.len() && gs[i].0 != g {
        lemma_group_pos_from(gs, g, i + 1);
    }
}

/// With unique keys, the entry keyed `g` stands exactly at `group_pos`.
pub proof fn lemma_group_pos(gs: Seq<(Seq<char>, Seq<u32>)>, g: Seq<char>)
    requires
        keys_unique(gs),
    ensures
        group_pos(gs, g) == -1 <==> (forall|k: int| 0 <= k < gs.len() ==> gs[k].0 != g),
        group_pos(gs, g) != -1 ==> 0 <= group_pos(gs, g) < gs.len() && gs[group_pos(gs, g)].0 == g,
        forall|k: int| 0 <= k < gs.len() && gs[k].0 == g ==> group_pos(gs, g) == k,
{
    lemma_group_pos_from(gs, g, 0);
}

/// The group index after a fresh id joins group `g`: appended to its
/// entry, or to a new entry at the end.
pub open spec fn groups_with(gs: Seq<(Seq<char>, Seq<u32>)>, g: Seq<char>, id: u32) -> Seq<(Seq<char>, Seq<u32>)> {
    let p = group_pos(gs, g);
    if p >= 0 {
        gs.update(p, (g, gs[p].1.push(id)))
    } else {
        gs.push((g, seq![id]))
    }
}

/// The group index after `id` leaves group `g`; an entry left empty goes.
pub open spec fn groups_without(gs: Seq<(Seq<char>, Seq<u32>)>, g: Seq<char>, id: u32) -> Seq<(Seq<char>, Seq<u32>)> {
    let p = group_pos(gs, g);
    if p < 0 {
        gs
    } else if without(gs[p].1, id).len() == 0 {
        gs.remove(p)
    } else {
        gs.update(p, (g, without(gs[p].1, id)))
    }
}

fn find_group(gs: &Vec<(String, Vec<u32>)>, g: &String) -> (r: Option<usize>)
    ensures
        match r {
            Some(i) => i < gs@.len() && gs@[i as int].0@ == g@ && i as int == group_pos(groups_view(gs@), g@),
            None => group_pos(groups_view(gs@), g@) == -1,
        },
{
    let ghost v = groups_view(gs@);
    let mut i: usize = 0;
    while i < gs.len()
        invariant
            i <= gs@.len(),
            v == groups_view(gs@),
            group_pos(v, g@) == group_pos_from(v, g@, i as int),
        decreases gs@.len() - i,
    {
        if gs[i].0 == *g {
            return Some(i);
        }
        i = i + 1;
    }
    None
}


/// Every entry holds at least one id, none twice, each in `1..next`.
pub open spec fn entries_ok(gs: Seq<(Seq<char>, Seq<u32>)>, next: u32) -> bool {
    &&& forall|i: int| 0 <= i < gs.len() ==> (#[trigger] gs[i]).1.len() > 0 && gs[i].1.no_duplicates()
    &&& forall|i: int, k: int|
        0 <= i < gs.len() && 0 <= k < gs[i].1.len() ==> 0 < #[trigger] gs[i].1[k] < next
}

proof fn lemma_groups_with_ok(gs: Seq<(Seq<char>, Seq<u32>)>, g: Seq<char>, id: u32)
    requires
        keys_unique(gs),
        entries_ok(gs, id),
        0 < id < u32::MAX,
    ensures
        keys_unique(groups_with(gs, g, id)),
        entries_ok(groups_with(gs, g, id), (id + 1) as u32),
{
    lemma_group_pos(gs, g);
    let p = group_pos(gs, g);
    let r = groups_with(gs, g, id);
    if p >= 0 {
        let e = gs[p].1;
        assert(!e.contains(id)) by {
            if e.contains(id) {
                let k = choose|k: int| 0 <= k < e.len() && e[k] == id;
                assert(gs[p].1[k] < id);
            }
        }
        assert(e.push(id).no_duplicates()) by {
            assert forall|a: int, b: int| 0 <= a < b < e.push(id).len() implies e.push(id)[a] != e.push(id)[b] by {
                if b == e.len() {
                    assert(e[a] != id);
                }
            }
        }
        assert forall|i: int, k: int| 0 <= i < r.len() && 0 <= k < r[i].1.len() implies 0 < #[trigger] r[i].1[k] < id + 1 by {
            if i != p {
                assert(r[i] == gs[i]);
            } else if k < e.len() {
                assert(r[i].1[k] == gs[p].1[k]);
            }
        }
        assert forall|i: int, j: int| 0 <= i < r.len() && 0 <= j < r.len() && i != j implies r[i].0 != r[j].0 by {
            assert(r[i].0 == gs[i].0);
            assert(r[j].0 == gs[j].0);
        }
    } else {
        assert forall|i: int, k: int| 0 <= i < r.len() && 0 <= k < r[i].1.len() implies 0 < #[trigger] r[i].1[k] < id + 1 by {
            if i < gs.len() {
                assert(r[i] == gs[i]);
            }
        }
        assert forall|i: int, j: int| 0 <= i < r.len() && 0 <= j < r.len() && i != j implies r[i].0 != r[j].0 by {
            if i < gs.len() && j < gs.len() {
                assert(r[i] == gs[i]);
                assert(r[j] == gs[j]);
            } else if i < gs.len() {
                assert(r[i] == gs[i]);
            } else {
                assert(r[j] == gs[j]);
            }
        }
    }
}

proof fn lemma_groups_without_ok(gs: Seq<(Seq<char>, Seq<u32>)>, g: Seq<char>, id: u32, next: u32)
    requires
        keys_unique(gs),
        entries_ok(gs, next),
    ensures
        keys_unique(groups_without(gs, g, id)),
        entries_ok(groups_without(gs, g, id), next),
{
    lemma_group_pos(gs, g);
    let p = group_pos(gs, g);
    let r = groups_without(gs, g, id);
    if p >= 0 {
        let w = without(gs[p].1, id);
        lemma_without_no_duplicates(gs[p].1, id);
        if w.len() == 0 {
            assert forall|i: int| 0 <= i < r.len() implies #[trigger] r[i] == gs[if i < p { i } else { i + 1 }] by {}
            assert forall|i: int, k: int| 0 <= i < r.len() && 0 <= k < r[i].1.len() implies 0 < #[trigger] r[i].1[k] < next by {
                assert(r[i] == gs[if i < p { i } else { i + 1 }]);
            }
            assert forall|i: int, j: int| 0 <= i < r.len() && 0 <= j < r.len() && i != j implies r[i].0 != r[j].0 by {
                assert(r[i] == gs[if i < p { i } else { i + 1 }]);
                assert(r[j] == gs[if j < p { j } else { j + 1 }]);
            }
        } else {
            assert forall|i: int, k: int| 0 <= i < r.len() && 0 <= k < r[i].1.len() implies 0 < #[trigger] r[i].1[k] < next by {
                if i != p {
                    assert(r[i] == gs[i]);
                } else {
                    lemma_without_contains(gs[p].1, id, w[k]);
                    assert(w.contains(w[k]));
                    let kk = choose|kk: int| 0 <= kk < gs[p].1.len() && gs[p].1[kk] == w[k];
                    assert(gs[p].1[kk] < next);
                }
            }
            assert forall|i: int, j: int| 0 <= i < r.len() && 0 <= j < r.len() && i != j implies r[i].0 != r[j].0 by {
                assert(r[i].0 == gs[i].0);
                assert(r[j].0 == gs[j].0);
            }
        }
    }
}

// ---------------------------------------------------------------------------
// Audit entries

/// The RFC 3339 text that chrono gives a UTC time.
pub uninterp spec fn rfc3339_of(secs: int, nanos: int) -> Seq<char>;

/// Relies on chrono's DateTime::from_timestamp and DateTime::to_rfc3339: the
/// RFC 3339 text of a UTC time, or none where chrono cannot represent the
/// time.
#[verifier::external_body]
fn rfc3339(t: Timestamp) -> (r: Option<String>)
    ensures
        r is Some <==> utc_representable(t.secs as int, t.nanos as int),
        r matches Some(s) ==> s@ == rfc3339_of(t.secs as int, t.nanos as int),
{
    match chrono::DateTime::from_timestamp(t.secs, t.nanos) {
        Some(d) => Some(d.to_rfc3339()),
        None => None,
    }
}

/// The text of a time in the audit log: its RFC 3339 form, empty where
/// chrono cannot represent the time.
pub open spec fn time_text(t: Timestamp, s: Seq<char>) -> bool {
    if utc_representable(t.secs as int, t.nanos as int) {
        s == rfc3339_of(t.secs as int, t.nanos as int)
    } else {
        s.len() == 0
    }
}

/// `s` is the text of some current time: of a time chrono represents,
/// with its sub-second part below one second.
pub open spec fn is_time_text(s: Seq<char>) -> bool {
    exists|t: Timestamp|
        t.nanos < 1_000_000_000 && utc_representable(t.secs as int, t.nanos as int)
            && #[trigger] rfc3339_of(t.secs as int, t.nanos as int) == s
}

fn format_time(t: Timestamp) -> (r: String)
    ensures
        time_text(t, r@),
{
    match rfc3339(t) {
        Some(s) => s,
        None => String::new(),
    }
}

fn clone_text(o: &Option<String>) -> (r: Option<String>)
    ensures
        text_view(r) == text_view(*o),
{
    match o {
        Some(s) => Some(s.clone()),
        None => None,
    }
}

fn copy_pairs(v: &Vec<(String, String)>) -> (r: Vec<(String, String)>)
    ensures
        pairs_view(r@) == pairs_view(v@),
{
    let mut out: Vec<(String, String)> = Vec::new();
    let mut i: usize = 0;
    while i < v.len()
        invariant
            i <= v@.len(),
            out@.len() == i,
            forall|k: int| 0 <= k < i ==> pair_view(#[trigger] out@[k]) == pair_view(v@[k]),
        decreases v@.len() - i,
    {
        out.push((v[i].0.clone(), v[i].1.clone()));
        i = i + 1;
    }
    assert(pairs_view(out@) =~= pairs_view(v@));
    out
}

/// `e` records `event` of notification `n`, with `action_key` for an action.
pub open spec fn entry_for(e: LogEntry, n: Notification, event: Seq<char>, action_key: Option<Seq<char>>) -> bool {
    &&& e.uuid@ == n.uuid@
    &&& e.event@ == event
    &&& is_time_text(e.timestamp@)
    &&& e.notification_id == Some(n.id)
    &&& text_view(e.app_name) == Some(n.app_name@)
    &&& text_view(e.summary) == Some(n.summary@)
    &&& text_view(e.group) == text_view(n.group)
    &&& text_view(e.action_key) == action_key
    &&& if event == "received"@ {
        &&& text_view(e.app_icon) == Some(n.app_icon@)
        &&& text_view(e.body) == Some(n.body@)
        &&& text_view(e.urgency) == Some(n.urgency.spec_name())
        &&& text_view(e.desktop_entry) == text_view(n.desktop_entry)
        &&& e.hints matches Some(h) && pairs_view(h@) == pairs_view(n.hints@)
        &&& e.created_at matches Some(c) && time_text(n.created_at, c@)
    } else {
        &&& e.app_icon is None
        &&& e.body is None
        &&& e.urgency is None
        &&& e.desktop_entry is None
        &&& e.hints is None
        &&& e.created_at is None
    }
}

fn make_entry(n: &Notification, event: String, action_key: Option<String>) -> (e: LogEntry)
    ensures
        entry_for(e, *n, event@, text_view(action_key)),
{
    let received = event == String::from_str("received");
    let now = utc_now();
    let timestamp = format_time(now);
    assert(rfc3339_of(now.secs as int, now.nanos as int) == timestamp@);
    LogEntry {
        uuid: n.uuid.clone(),
        timestamp,
        event,
        notification_id: Some(n.id),
        app_name: Some(n.app_name.clone()),
        app_icon: if received { Some(n.app_icon.clone()) } else { None },
        summary: Some(n.summary.clone()),
        body: if received { Some(n.body.clone()) } else { None },
        created_at: if received { Some(format_time(n.created_at)) } else { None },
        urgency: if received { Some(n.urgency.name()) } else { None },
        desktop_entry: if received { clone_text(&n.desktop_entry) } else { None },
        hints: if received { Some(copy_pairs(&n.hints)) } else { None },
        action_key,
        group: clone_text(&n.group),
    }
}

/// `after` is `before` with one entry for `event` of `n` appended, where
/// logging is enabled; `before` unchanged where it is not.
pub open spec fn logged(
    before: Seq<LogEntry>,
    after: Seq<LogEntry>,
    enabled: bool,
    n: Notification,
    event: Seq<char>,
    action_key: Option<Seq<char>>,
) -> bool {
    if enabled {
        &&& after.len() == before.len() + 1
        &&& after.drop_last() == before
        &&& entry_for(after.last(), n, event, action_key)
    } else {
        after == before
    }
}


// ---------------------------------------------------------------------------
// The store

/// The single source of truth for active notifications.
pub struct Store {
    pub config: Config,
    /// Active notifications by id.
    pub notifications: HashMap<u32, Notification>,
    /// Display order, newest first.
    pub order: Vec<u32>,
    /// Group key and the ids of the group, in the order they joined.
    pub groups: Vec<(String, Vec<u32>)>,
    /// The id that the next new notification gets.
    pub next_id: u32,
    /// Do Not Disturb.
    pub dnd: bool,
    /// Ids replaced in place since the last drain.
    pub replaced_ids: Vec<u32>,
    /// Audit entries not yet written out.
    pub log: Vec<LogEntry>,
}

/// The group key of a notification.
pub open spec fn group_key(n: Notification) -> Option<Seq<char>> {
    text_view(n.group)
}

/// `add` overwrites the notification `replaces_id` in place.
pub open spec fn replaces(s: Store, replaces_id: u32) -> bool {
    replaces_id > 0 && s.notifications@.contains_key(replaces_id)
}

/// Where `add` replaces, the new content keeps the group of the old.
pub open spec fn keeps_group(s: Store, noti: Notification, replaces_id: u32) -> bool {
    replaces(s, replaces_id) ==> group_key(noti) == group_key(s.notifications@[replaces_id])
}

/// What `add(noti, replaces_id)` makes of store `s`: store `t`, id `id`.
pub open spec fn add_post(s: Store, noti: Notification, replaces_id: u32, t: Store, id: u32) -> bool {
    let stored = Notification { id: id, ..noti };
    &&& t.notifications@ == s.notifications@.insert(id, stored)
    &&& t.config == s.config
    &&& t.dnd == s.dnd
    &&& logged(s.log@, t.log@, s.config.log_enabled, stored, "received"@, None)
    &&& if replaces(s, replaces_id) {
        &&& id == replaces_id
        &&& t.order@ == s.order@
        &&& t.groups@ == s.groups@
        &&& t.next_id == s.next_id
        &&& t.replaced_ids@ == if s.replaced_ids@.contains(id) {
            s.replaced_ids@
        } else {
            s.replaced_ids@.push(id)
        }
    } else {
        &&& id == s.next_id
        &&& t.next_id == s.next_id + 1
        &&& t.order@ == seq![id] + s.order@
        &&& t.group_list() == match group_key(noti) {
            Some(g) => groups_with(s.group_list(), g, id),
            None => s.group_list(),
        }
        &&& t.replaced_ids@ == s.replaced_ids@
    }
}

/// What `close(id, reason)` makes of store `s`: store `t`, result `r`.
pub open spec fn close_post(s: Store, id: u32, reason: CloseReason, t: Store, r: Option<Notification>) -> bool {
    if s.notifications@.contains_key(id) {
        let n = s.notifications@[id];
        &&& r == Some(n)
        &&& t.notifications@ == s.notifications@.remove(id)
        &&& t.order@ == without(s.order@, id)
        &&& t.group_list() == match group_key(n) {
            Some(g) => groups_without(s.group_list(), g, id),
            None => s.group_list(),
        }
        &&& logged(s.log@, t.log@, s.config.log_enabled, n, reason.spec_event(), None)
        &&& t.config == s.config
        &&& t.dnd == s.dnd
        &&& t.next_id == s.next_id
        &&& t.replaced_ids@ == s.replaced_ids@
    } else {
        &&& r is None
        &&& t == s
    }
}

/// A popup is shown unless Do Not Disturb is on and it is not critical.
pub open spec fn shown_as_popup(n: Notification, dnd: bool) -> bool {
    !dnd || n.urgency == Urgency::Critical
}

/// The ids of `order` that name a notification shown as a popup.
pub open spec fn popup_ids(order: Seq<u32>, ns: Map<u32, Notification>, dnd: bool) -> Seq<u32>
    decreases order.len(),
{
    if order.len() == 0 {
        seq![]
    } else {
        let r = popup_ids(order.drop_last(), ns, dnd);
        let id = order.last();
        if ns.contains_key(id) && shown_as_popup(ns[id], dnd) {
            r.push(id)
        } else {
            r
        }
    }
}

/// The ids of `order` that name a notification kept in the history: all
/// but the transient ones.
pub open spec fn history_ids(order: Seq<u32>, ns: Map<u32, Notification>) -> Seq<u32>
    decreases order.len(),
{
    if order.len() == 0 {
        seq![]
    } else {
        let r = history_ids(order.drop_last(), ns);
        let id = order.last();
        if ns.contains_key(id) && !ns[id].transient {
            r.push(id)
        } else {
            r
        }
    }
}

/// `after` is `before` followed by one `dismissed` entry for each of `ids`,
/// in that order, where logging is enabled; `before` where it is not.
pub open spec fn dismissals(
    before: Seq<LogEntry>,
    after: Seq<LogEntry>,
    enabled: bool,
    ns: Map<u32, Notification>,
    ids: Seq<u32>,
) -> bool {
    if enabled {
        &&& after.len() == before.len() + ids.len()
        &&& after.subrange(0, before.len() as int) == before
        &&& forall|k: int| 0 <= k < ids.len() ==> entry_for(#[trigger] after[before.len() + k], ns[ids[k]], "dismissed"@, None)
    } else {
        after == before
    }
}

fn copy_ids(v: &Vec<u32>) -> (r: Vec<u32>)
    ensures
        r@ == v@,
{
    let mut out: Vec<u32> = Vec::new();
    let mut i: usize = 0;
    while i < v.len()
        invariant
            i <= v@.len(),
            out@ == v@.subrange(0, i as int),
        decreases v@.len() - i,
    {
        out.push(v[i]);
        i = i + 1;
    }
    assert(out@ =~= v@);
    out
}

impl Store {
    pub open spec fn group_list(&self) -> Seq<(Seq<char>, Seq<u32>)> {
        groups_view(self.groups@)
    }

    pub open spec fn active(&self, id: u32) -> bool {
        self.notifications@.contains_key(id)
    }

    /// Identity and index invariants: ids are positive, below `next_id` and
    /// name their notification; `order` holds each active id once and no
    /// other; group keys are unique and every group entry is well formed.
    pub open spec fn wf(&self) -> bool {
        let ns = self.notifications@;
        &&& 1 <= self.next_id
        &&& forall|id: u32| #[trigger] ns.contains_key(id) ==> 0 < id < self.next_id && ns[id].id == id
        &&& self.order@.no_duplicates()
        &&& forall|id: u32| #![trigger ns.contains_key(id)] #![trigger self.order@.contains(id)]
            ns.contains_key(id) <==> self.order@.contains(id)
        &&& keys_unique(self.group_list())
        &&& entries_ok(self.group_list(), self.next_id)
        &&& self.replaced_ids@.no_duplicates()
    }

    /// Group integrity: every id of a group entry is active and has that
    /// group, and every active notification with a group stands in the
    /// entry of its group.
    pub open spec fn groups_consistent(&self) -> bool {
        let gs = self.group_list();
        let ns = self.notifications@;
        &&& forall|i: int, k: int| 0 <= i < gs.len() && 0 <= k < gs[i].1.len() ==>
            ns.contains_key(#[trigger] gs[i].1[k]) && group_key(ns[gs[i].1[k]]) == Some(gs[i].0)
        &&& forall|id: u32| #[trigger] ns.contains_key(id) && group_key(ns[id]) is Some ==> {
            let p = group_pos(gs, group_key(ns[id])->0);
            p >= 0 && gs[p].1.contains(id)
        }
    }

    /// The ids of group `g`, in the order they joined; none if no entry.
    pub open spec fn group_members(&self, g: Seq<char>) -> Seq<u32> {
        let p = group_pos(self.group_list(), g);
        if p >= 0 {
            self.group_list()[p].1
        } else {
            seq![]
        }
    }

    /// An empty store with the given settings.
    pub fn new(config: Config) -> (r: Store)
        ensures
            r.wf(),
            r.config == config,
            r.notifications@ == Map::<u32, Notification>::empty(),
            r.order@ == Seq::<u32>::empty(),
            r.groups@ == Seq::<(String, Vec<u32>)>::empty(),
            r.next_id == 1,
            !r.dnd,
            r.replaced_ids@ == Seq::<u32>::empty(),
            r.log@ == Seq::<LogEntry>::empty(),
            r.groups_consistent(),
    {
        let r = Store {
            config,
            notifications: HashMap::new(),
            order: Vec::new(),
            groups: Vec::new(),
            next_id: 1,
            dnd: false,
            replaced_ids: Vec::new(),
            log: Vec::new(),
        };
        assert(r.group_list() =~= Seq::empty());
        r
    }

    fn log_event(&mut self, n: &Notification, event: String, action_key: Option<String>)
        ensures
            logged(old(self).log@, final(self).log@, old(self).config.log_enabled, *n, event@, text_view(action_key)),
            final(self).config == old(self).config,
            final(self).notifications == old(self).notifications,
            final(self).order == old(self).order,
            final(self).groups == old(self).groups,
            final(self).next_id == old(self).next_id,
            final(self).dnd == old(self).dnd,
            final(self).replaced_ids == old(self).replaced_ids,
    {
        if self.config.log_enabled {
            let e = make_entry(n, event, action_key);
            self.log.push(e);
            assert(self.log@.drop_last() =~= old(self).log@);
        }
    }

    fn add_to_group(&mut self, g: &String, id: u32)
        ensures
            final(self).group_list() == groups_with(old(self).group_list(), g@, id),
            final(self).config == old(self).config,
            final(self).notifications == old(self).notifications,
            final(self).order == old(self).order,
            final(self).log == old(self).log,
            final(self).next_id == old(self).next_id,
            final(self).dnd == old(self).dnd,
            final(self).replaced_ids == old(self).replaced_ids,
    {
        match find_group(&self.groups, g) {
            Some(i) => {
                let ghost before = self.group_list();
                let mut entry = self.groups.remove(i);
                entry.1.push(id);
                self.groups.insert(i, entry);
                assert(self.group_list() =~= before.update(i as int, (g@, before[i as int].1.push(id))));
            },
            None => {
                let mut ids: Vec<u32> = Vec::new();
                ids.push(id);
                self.groups.push((g.clone(), ids));
                assert(self.group_list() =~= old(self).group_list().push((g@, seq![id])));
            },
        }
    }

    fn remove_from_group(&mut self, g: &String, id: u32)
        ensures
            final(self).group_list() == groups_without(old(self).group_list(), g@, id),
            final(self).config == old(self).config,
            final(self).notifications == old(self).notifications,
            final(self).order == old(self).order,
            final(self).log == old(self).log,
            final(self).next_id == old(self).next_id,
            final(self).dnd == old(self).dnd,
            final(self).replaced_ids == old(self).replaced_ids,
    {
        match find_group(&self.groups, g) {
            Some(i) => {
                let ghost before = self.group_list();
                let entry = self.groups.remove(i);
                let rest = remove_id(&entry.1, id);
                if rest.len() == 0 {
                    assert(self.group_list() =~= before.remove(i as int));
                } else {
                    self.groups.insert(i, (entry.0, rest));
                    assert(self.group_list() =~= before.update(i as int, (g@, without(before[i as int].1, id))));
                }
            },
            None => {},
        }
    }

    /// Stores a notification and returns its id. Where `replaces_id` names an
    /// active notification, its content is overwritten in place: same id,
    /// same position, same group entry, and the id is recorded once among the
    /// replaced ids. Otherwise the notification gets the next id, goes to the
    /// front of the order and joins its group. Either way a `received` event
    /// is logged.
    pub fn add(&mut self, noti: Notification, replaces_id: u32) -> (r: u32)
        requires
            old(self).wf(),
            replaces(*old(self), replaces_id) || old(self).next_id < u32::MAX,
        ensures
            final(self).wf(),
            add_post(*old(self), noti, replaces_id, *final(self), r),
            old(self).groups_consistent() && keeps_group(*old(self), noti, replaces_id)
                ==> final(self).groups_consistent(),
    {
        let ghost s0 = *old(self);
        let mut noti = noti;
        if replaces_id > 0 && self.notifications.contains_key(&replaces_id) {
            noti.id = replaces_id;
            self.log_event(&noti, String::from_str("received"), None);
            self.notifications.insert(replaces_id, noti);
            if !contains_id(&self.replaced_ids, replaces_id) {
                self.replaced_ids.push(replaces_id);
                assert(self.replaced_ids@.no_duplicates()) by {
                    let v = self.replaced_ids@;
                    assert forall|a: int, b: int| 0 <= a < b < v.len() implies v[a] != v[b] by {
                        if b == v.len() - 1 {
                            assert(old(self).replaced_ids@[a] == v[a]);
                        } else {
                            assert(old(self).replaced_ids@[a] == v[a]);
                            assert(old(self).replaced_ids@[b] == v[b]);
                        }
                    }
                }
            }
            proof {
                if s0.groups_consistent() && keeps_group(s0, noti, replaces_id) {
                    lemma_replace_consistent(s0, *self, replaces_id);
                }
            }
            replaces_id
        } else {
            let id = self.next_id;
            proof {
                lemma_groups_with_ok(self.group_list(), if noti.group is Some { noti.group->0@ } else { seq![] }, id);
            }
            self.next_id = id + 1;
            noti.id = id;
            match &noti.group {
                Some(g) => self.add_to_group(g, id),
                None => {},
            }
            let ghost old_order = self.order@;
            self.order.insert(0, id);
            assert(!old_order.contains(id));
            assert(self.order@ =~= seq![id] + old_order);
            assert forall|x: u32| #[trigger] self.order@.contains(x) <==> (x == id || old_order.contains(x)) by {
                if self.order@.contains(x) && x != id {
                    let k = choose|k: int| 0 <= k < self.order@.len() && self.order@[k] == x;
                    assert(old_order[k - 1] == x);
                }
                if old_order.contains(x) {
                    let k = choose|k: int| 0 <= k < old_order.len() && old_order[k] == x;
                    assert(self.order@[k + 1] == x);
                }
                if x == id {
                    assert(self.order@[0] == x);
                }
            }
            assert(self.order@.no_duplicates()) by {
                let v = self.order@;
                assert forall|a: int, b: int| 0 <= a < b < v.len() implies v[a] != v[b] by {
                    if a == 0 {
                        assert(old_order[b - 1] == v[b]);
                    } else {
                        assert(old_order[a - 1] == v[a]);
                        assert(old_order[b - 1] == v[b]);
                    }
                }
            }
            self.log_event(&noti, String::from_str("received"), None);
            self.notifications.insert(id, noti);
            proof {
                if s0.groups_consistent() {
                    lemma_add_consistent(s0, *self, id, noti);
                }
            }
            id
        }
    }

    /// Takes notification `id` out of the store, its order and its group
    /// entry (dropping an entry left empty), logs an event named after the
    /// reason and returns the notification; an unknown id changes nothing.
    pub fn close(&mut self, id: u32, reason: CloseReason) -> (r: Option<Notification>)
        requires
            old(self).wf(),
        ensures
            final(self).wf(),
            close_post(*old(self), id, reason, *final(self), r),
            old(self).groups_consistent() ==> final(self).groups_consistent(),
    {
        if !self.notifications.contains_key(&id) {
            return None;
        }
        match self.notifications.remove(&id) {
            Some(noti) => {
                proof {
                    lemma_without_no_duplicates(self.order@, id);
                    lemma_groups_without_ok(self.group_list(), if noti.group is Some { noti.group->0@ } else { seq![] }, id, self.next_id);
                }
                let ghost old_order = self.order@;
                self.order = remove_id(&self.order, id);
                assert forall|x: u32| #[trigger] self.order@.contains(x) <==> (old_order.contains(x) && x != id) by {
                    lemma_without_contains(old_order, id, x);
                }
                match &noti.group {
                    Some(g) => self.remove_from_group(g, id),
                    None => {},
                }
                self.log_event(&noti, reason.event_name(), None);
                proof {
                    if old(self).groups_consistent() {
                        lemma_close_consistent(*old(self), *self, id);
                    }
                }
                Some(noti)
            },
            None => None,
        }
    }

    /// Logs an `action` event for notification `id` with the invoked key;
    /// an unknown id changes nothing.
    pub fn log_action(&mut self, id: u32, action_key: &str)
        requires
            old(self).wf(),
        ensures
            final(self).wf(),
            old(self).active(id) ==> logged(old(self).log@, final(self).log@, old(self).config.log_enabled, old(self).notifications@[id], "action"@, Some(action_key@)),
            !old(self).active(id) ==> *final(self) == *old(self),
            final(self).config == old(self).config,
            final(self).notifications == old(self).notifications,
            final(self).order == old(self).order,
            final(self).groups == old(self).groups,
            final(self).next_id == old(self).next_id,
            final(self).dnd == old(self).dnd,
            final(self).replaced_ids == old(self).replaced_ids,
    {
        if !self.config.log_enabled {
            return;
        }
        let entry = match self.notifications.get(&id) {
            Some(n) => make_entry(n, String::from_str("action"), Some(String::from_str(action_key))),
            None => return,
        };
        self.log.push(entry);
        assert(self.log@.drop_last() =~= old(self).log@);
    }

    /// The notifications to show as popups, in display order: all of them,
    /// or under Do Not Disturb the critical ones only.
    pub fn visible_popups(&self) -> (r: Vec<&Notification>)
        ensures
            r@.len() == popup_ids(self.order@, self.notifications@, self.dnd).len(),
            forall|i: int| 0 <= i < r@.len() ==> *(#[trigger] r@[i]) == self.notifications@[popup_ids(self.order@, self.notifications@, self.dnd)[i]],
    {
        let ghost ns = self.notifications@;
        let mut out: Vec<&Notification> = Vec::new();
        let mut i: usize = 0;
        while i < self.order.len()
            invariant
                i <= self.order@.len(),
                ns == self.notifications@,
                out@.len() == popup_ids(self.order@.subrange(0, i as int), ns, self.dnd).len(),
                forall|k: int| 0 <= k < out@.len() ==> *(#[trigger] out@[k]) == ns[popup_ids(self.order@.subrange(0, i as int), ns, self.dnd)[k]],
            decreases self.order@.len() - i,
        {
            assert(self.order@.subrange(0, i + 1).drop_last() =~= self.order@.subrange(0, i as int));
            match self.notifications.get(&self.order[i]) {
                Some(n) => {
                    if !self.dnd || n.urgency == Urgency::Critical {
                        out.push(n);
                    }
                },
                None => {},
            }
            i = i + 1;
        }
        assert(self.order@.subrange(0, self.order@.len() as int) =~= self.order@);
        out
    }

    /// The notifications of the history view, in display order: all but the
    /// transient ones.
    pub fn all_notifications(&self) -> (r: Vec<&Notification>)
        ensures
            r@.len() == history_ids(self.order@, self.notifications@).len(),
            forall|i: int| 0 <= i < r@.len() ==> *(#[trigger] r@[i]) == self.notifications@[history_ids(self.order@, self.notifications@)[i]],
    {
        let ghost ns = self.notifications@;
        let mut out: Vec<&Notification> = Vec::new();
        let mut i: usize = 0;
        while i < self.order.len()
            invariant
                i <= self.order@.len(),
                ns == self.notifications@,
                out@.len() == history_ids(self.order@.subrange(0, i as int), ns).len(),
                forall|k: int| 0 <= k < out@.len() ==> *(#[trigger] out@[k]) == ns[history_ids(self.order@.subrange(0, i as int), ns)[k]],
            decreases self.order@.len() - i,
        {
            assert(self.order@.subrange(0, i + 1).drop_last() =~= self.order@.subrange(0, i as int));
            match self.notifications.get(&self.order[i]) {
                Some(n) => {
                    if !n.transient {
                        out.push(n);
                    }
                },
                None => {},
            }
            i = i + 1;
        }
        assert(self.order@.subrange(0, self.order@.len() as int) =~= self.order@);
        out
    }

    /// Closes every active notification, in display order, as dismissed:
    /// one audit event each.
    pub fn clear_all(&mut self)
        requires
            old(self).wf(),
        ensures
            final(self).wf(),
            final(self).notifications@ == Map::<u32, Notification>::empty(),
            final(self).order@ == Seq::<u32>::empty(),
            dismissals(old(self).log@, final(self).log@, old(self).config.log_enabled, old(self).notifications@, old(self).order@),
            final(self).config == old(self).config,
            final(self).next_id == old(self).next_id,
            final(self).dnd == old(self).dnd,
            final(self).replaced_ids@ == old(self).replaced_ids@,
            old(self).groups_consistent() ==> final(self).groups_consistent() && final(self).groups@.len() == 0,
    {
        let ids = copy_ids(&self.order);
        let ghost ns0 = self.notifications@;
        let ghost log0 = self.log@;
        let ghost enabled = self.config.log_enabled;
        assert(log0.subrange(0, log0.len() as int) =~= log0);
        let mut i: usize = 0;
        while i < ids.len()
            invariant
                self.wf(),
                i <= ids@.len(),
                ids@ == old(self).order@,
                ns0 == old(self).notifications@,
                log0 == old(self).log@,
                enabled == old(self).config.log_enabled,
                self.order@ == ids@.subrange(i as int, ids@.len() as int),
                forall|id: u32| #[trigger] self.notifications@.contains_key(id) ==> self.notifications@[id] == ns0[id],
                dismissals(log0, self.log@, enabled, ns0, ids@.subrange(0, i as int)),
                self.config == old(self).config,
                self.next_id == old(self).next_id,
                self.dnd == old(self).dnd,
                self.replaced_ids@ == old(self).replaced_ids@,
                old(self).groups_consistent() ==> self.groups_consistent(),
            decreases ids@.len() - i,
        {
            let id = ids[i];
            let ghost before = *self;
            proof {
                assert(self.order@[0] == id);
                assert(self.order@.contains(id));
                lemma_without_first(self.order@);
            }
            self.close(id, CloseReason::Dismissed);
            assert(self.order@ =~= ids@.subrange(i + 1, ids@.len() as int));
            proof {
                if enabled {
                    let prev = ids@.subrange(0, i as int);
                    let cur = ids@.subrange(0, i + 1);
                    assert(self.log@.drop_last() == before.log@);
                    assert(self.log@.subrange(0, log0.len() as int) =~= before.log@.subrange(0, log0.len() as int));
                    assert forall|k: int| 0 <= k < cur.len() implies entry_for(#[trigger] self.log@[log0.len() + k], ns0[cur[k]], "dismissed"@, None) by {
                        if k < prev.len() {
                            assert(self.log@[log0.len() + k] == before.log@[log0.len() + k]);
                            assert(cur[k] == prev[k]);
                        }
                    }
                } else {
                    assert(self.log@ == log0);
                }
            }
            i = i + 1;
        }
        assert(self.notifications@ =~= Map::<u32, Notification>::empty()) by {
            assert forall|id: u32| !self.notifications@.contains_key(id) by {
                if self.notifications@.contains_key(id) {
                    assert(self.order@.contains(id));
                }
            }
        }
        assert(ids@.subrange(0, ids@.len() as int) =~= ids@);
        proof {
            if old(self).groups_consistent() && self.groups@.len() > 0 {
                assert(self.group_list()[0].1.len() > 0);
                assert(self.notifications@.contains_key(self.group_list()[0].1[0]));
            }
        }
    }

    /// Drains the ids replaced in place since the last drain.
    pub fn take_replaced_ids(&mut self) -> (r: Vec<u32>)
        requires
            old(self).wf(),
        ensures
            final(self).wf(),
            r@ == old(self).replaced_ids@,
            final(self).replaced_ids@ == Seq::<u32>::empty(),
            final(self).config == old(self).config,
            final(self).notifications == old(self).notifications,
            final(self).order == old(self).order,
            final(self).groups == old(self).groups,
            final(self).next_id == old(self).next_id,
            final(self).dnd == old(self).dnd,
            final(self).log == old(self).log,
    {
        let mut r: Vec<u32> = Vec::new();
        std::mem::swap(&mut r, &mut self.replaced_ids);
        r
    }

    /// Drains the audit entries not yet written out, oldest first.
    pub fn take_log_entries(&mut self) -> (r: Vec<LogEntry>)
        requires
            old(self).wf(),
        ensures
            final(self).wf(),
            r@ == old(self).log@,
            final(self).log@ == Seq::<LogEntry>::empty(),
            final(self).config == old(self).config,
            final(self).notifications == old(self).notifications,
            final(self).order == old(self).order,
            final(self).groups == old(self).groups,
            final(self).next_id == old(self).next_id,
            final(self).dnd == old(self).dnd,
            final(self).replaced_ids == old(self).replaced_ids,
    {
        let mut r: Vec<LogEntry> = Vec::new();
        std::mem::swap(&mut r, &mut self.log);
        r
    }

    /// The active notification `id`.
    pub fn get(&self, id: u32) -> (r: Option<&Notification>)
        ensures
            match r {
                Some(n) => self.active(id) && *n == self.notifications@[id],
                None => !self.active(id),
            },
    {
        self.notifications.get(&id)
    }

    pub fn is_active(&self, id: u32) -> (r: bool)
        ensures
            r == self.active(id),
    {
        self.notifications.contains_key(&id)
    }

    /// Whether `add` can take a notification with this `replaces_id`: a
    /// replacement always, a new notification while ids remain.
    pub fn can_add(&self, replaces_id: u32) -> (r: bool)
        ensures
            r == (replaces(*self, replaces_id) || self.next_id < u32::MAX),
    {
        (replaces_id > 0 && self.notifications.contains_key(&replaces_id)) || self.next_id < u32::MAX
    }
}


proof fn lemma_replace_consistent(s: Store, t: Store, x: u32)
    requires
        s.wf(),
        s.groups_consistent(),
        s.notifications@.contains_key(x),
        t.notifications@.contains_key(x),
        t.notifications@ == s.notifications@.insert(x, t.notifications@[x]),
        group_key(t.notifications@[x]) == group_key(s.notifications@[x]),
        t.groups@ == s.groups@,
    ensures
        t.groups_consistent(),
{
    let gs = s.group_list();
    assert(t.group_list() == gs);
    let tn = t.notifications@;
    let sn = s.notifications@;
    assert forall|i: int, k: int| 0 <= i < gs.len() && 0 <= k < gs[i].1.len() implies
        tn.contains_key(#[trigger] gs[i].1[k]) && group_key(tn[gs[i].1[k]]) == Some(gs[i].0) by {
        assert(sn.contains_key(gs[i].1[k]));
    }
    assert forall|id: u32| #[trigger] tn.contains_key(id) && group_key(tn[id]) is Some implies {
        let p = group_pos(gs, group_key(tn[id])->0);
        p >= 0 && gs[p].1.contains(id)
    } by {
        assert(sn.contains_key(id));
    }
}

proof fn lemma_add_consistent(s: Store, t: Store, id: u32, stored: Notification)
    requires
        s.wf(),
        s.groups_consistent(),
        id == s.next_id,
        id < u32::MAX,
        t.notifications@ == s.notifications@.insert(id, stored),
        t.group_list() == match group_key(stored) {
            Some(g) => groups_with(s.group_list(), g, id),
            None => s.group_list(),
        },
    ensures
        t.groups_consistent(),
{
    let sg = s.group_list();
    let tg = t.group_list();
    let sn = s.notifications@;
    let tn = t.notifications@;
    let g = if group_key(stored) is Some { group_key(stored)->0 } else { seq![] };
    lemma_groups_with_ok(sg, g, id);
    lemma_group_pos(sg, g);
    let p = group_pos(sg, g);
    assert(keys_unique(tg));
    assert(!sn.contains_key(id));
    // entries of `s` keep their place and key in `t`
    assert forall|i: int| 0 <= i < sg.len() implies #[trigger] tg[i].0 == sg[i].0 && (forall|k: int|
        0 <= k < sg[i].1.len() ==> tg[i].1[k] == sg[i].1[k]) && sg[i].1.len() <= tg[i].1.len() by {}
    assert forall|i: int, k: int| 0 <= i < tg.len() && 0 <= k < tg[i].1.len() implies
        tn.contains_key(#[trigger] tg[i].1[k]) && group_key(tn[tg[i].1[k]]) == Some(tg[i].0) by {
        if i < sg.len() && k < sg[i].1.len() {
            assert(sn.contains_key(sg[i].1[k]));
            assert(sg[i].1[k] < id);
        } else {
            assert(group_key(stored) is Some);
            assert(tg[i].1[k] == id);
        }
    }
    assert forall|x: u32| #[trigger] tn.contains_key(x) && group_key(tn[x]) is Some implies {
        let q = group_pos(tg, group_key(tn[x])->0);
        q >= 0 && tg[q].1.contains(x)
    } by {
        let gx = group_key(tn[x])->0;
        lemma_group_pos(tg, gx);
        if x == id {
            if p >= 0 {
                assert(tg[p].1[tg[p].1.len() - 1] == id);
            } else {
                assert(tg[sg.len() as int].1[0] == id);
            }
        } else {
            assert(sn.contains_key(x));
            lemma_group_pos(sg, gx);
            let q = group_pos(sg, gx);
            let k = choose|k: int| 0 <= k < sg[q].1.len() && sg[q].1[k] == x;
            assert(tg[q].1[k] == x);
        }
    }
}

proof fn lemma_close_consistent(s: Store, t: Store, id: u32)
    requires
        s.wf(),
        s.groups_consistent(),
        s.notifications@.contains_key(id),
        t.notifications@ == s.notifications@.remove(id),
        t.group_list() == match group_key(s.notifications@[id]) {
            Some(g) => groups_without(s.group_list(), g, id),
            None => s.group_list(),
        },
    ensures
        t.groups_consistent(),
{
    let sg = s.group_list();
    let tg = t.group_list();
    let sn = s.notifications@;
    let tn = t.notifications@;
    let n = sn[id];
    if group_key(n) is None {
        assert forall|i: int, k: int| 0 <= i < tg.len() && 0 <= k < tg[i].1.len() implies
            tn.contains_key(#[trigger] tg[i].1[k]) && group_key(tn[tg[i].1[k]]) == Some(tg[i].0) by {
            assert(sn.contains_key(sg[i].1[k]));
        }
        assert forall|x: u32| #[trigger] tn.contains_key(x) && group_key(tn[x]) is Some implies {
            let q = group_pos(tg, group_key(tn[x])->0);
            q >= 0 && tg[q].1.contains(x)
        } by {
            assert(sn.contains_key(x));
        }
    } else {
        let g = group_key(n)->0;
        lemma_group_pos(sg, g);
        let p = group_pos(sg, g);
        assert(p >= 0 && sg[p].1.contains(id));
        let w = without(sg[p].1, id);
        lemma_groups_without_ok(sg, g, id, s.next_id);
        // where each entry of `t` comes from
        let src = |i: int| if w.len() == 0 && i >= p { i + 1 } else { i };
        assert forall|i: int| 0 <= i < tg.len() implies 0 <= #[trigger] src(i) < sg.len() && tg[i].0 == sg[src(i)].0 && (src(i) != p ==> tg[i].1 == sg[src(i)].1) && (src(i) == p ==> tg[i].1 == w) by {}
        assert forall|i: int, k: int| 0 <= i < tg.len() && 0 <= k < tg[i].1.len() implies
            tn.contains_key(#[trigger] tg[i].1[k]) && group_key(tn[tg[i].1[k]]) == Some(tg[i].0) by {
            let j = src(i);
            assert(0 <= j < sg.len());
            let v = tg[i].1[k];
            if j == p {
                lemma_without_contains(sg[p].1, id, v);
                assert(w.contains(v));
                let kk = choose|kk: int| 0 <= kk < sg[p].1.len() && sg[p].1[kk] == v;
                assert(sn.contains_key(sg[p].1[kk]));
            } else {
                assert(sg[j].1[k] == v);
                assert(sn.contains_key(sg[j].1[k]));
                assert(sg[j].0 != g);
            }
        }
        assert forall|x: u32| #[trigger] tn.contains_key(x) && group_key(tn[x]) is Some implies {
            let q = group_pos(tg, group_key(tn[x])->0);
            q >= 0 && tg[q].1.contains(x)
        } by {
            let gx = group_key(tn[x])->0;
            assert(sn.contains_key(x) && x != id);
            lemma_group_pos(sg, gx);
            lemma_group_pos(tg, gx);
            let q = group_pos(sg, gx);
            if q == p {
                lemma_without_contains(sg[p].1, id, x);
                assert(w.contains(x));
                assert(tg[p].1 == w);
            } else {
                let i = if w.len() == 0 && q > p { q - 1 } else { q };
                assert(src(i) == q);
                assert(tg[i].1 == sg[q].1);
            }
        }
    }
}

/// Group integrity in the terms of the group index: `id` stands in the
/// entry of group `g` exactly when it is active and has group `g`.
pub proof fn lemma_group_integrity(s: Store, g: Seq<char>, id: u32)
    requires
        s.wf(),
        s.groups_consistent(),
    ensures
        s.group_members(g).contains(id) <==> (s.active(id) && group_key(s.notifications@[id]) == Some(g)),
{
    let gs = s.group_list();
    lemma_group_pos(gs, g);
    let p = group_pos(gs, g);
    if s.group_members(g).contains(id) {
        let k = choose|k: int| 0 <= k < gs[p].1.len() && gs[p].1[k] == id;
        assert(s.notifications@.contains_key(gs[p].1[k]));
    }
}


/// How often `x` occurs in `s`.
pub open spec fn count_of(s: Seq<u32>, x: u32) -> nat
    decreases s.len(),
{
    if s.len() == 0 {
        0
    } else {
        count_of(s.drop_last(), x) + if s.last() == x { 1nat } else { 0nat }
    }
}

proof fn lemma_count_absent(s: Seq<u32>, x: u32)
    requires
        !s.contains(x),
    ensures
        count_of(s, x) == 0,
    decreases s.len(),
{
    if s.len() > 0 {
        assert(s[s.len() - 1] == s.last());
        assert(!s.drop_last().contains(x)) by {
            if s.drop_last().contains(x) {
                let i = choose|i: int| 0 <= i < s.drop_last().len() && s.drop_last()[i] == x;
                assert(s[i] == x);
            }
        }
        lemma_count_absent(s.drop_last(), x);
    }
}

proof fn lemma_count_unique(s: Seq<u32>, x: u32)
    requires
        s.no_duplicates(),
        s.contains(x),
    ensures
        count_of(s, x) == 1,
    decreases s.len(),
{
    let d = s.drop_last();
    if s.last() == x {
        assert(!d.contains(x)) by {
            if d.contains(x) {
                let i = choose|i: int| 0 <= i < d.len() && d[i] == x;
                assert(s[i] == s[s.len() - 1]);
            }
        }
        lemma_count_absent(d, x);
    } else {
        let i = choose|i: int| 0 <= i < s.len() && s[i] == x;
        assert(i != s.len() - 1);
        assert(d[i] == x);
        lemma_count_unique(d, x);
    }
}

/// One step of a run: an `add` that replaces nothing and gets `id`, where
/// `is_add`; else a `close` of any id for any reason.
pub open spec fn run_step(s: Store, t: Store, is_add: bool, id: u32) -> bool {
    if is_add {
        exists|n: Notification| #[trigger] add_post(s, n, 0, t, id)
    } else {
        exists|x: u32, reason: CloseReason, r: Option<Notification>| #[trigger] close_post(s, x, reason, t, r)
    }
}

proof fn lemma_step_next_id(s: Store, t: Store, is_add: bool, id: u32)
    requires
        run_step(s, t, is_add, id),
    ensures
        t.next_id >= s.next_id,
        is_add ==> id == s.next_id && t.next_id == s.next_id + 1,
{
    if is_add {
        let n = choose|n: Notification| #[trigger] add_post(s, n, 0, t, id);
        assert(add_post(s, n, 0, t, id));
    } else {
        let (x, reason, r) = choose|x: u32, reason: CloseReason, r: Option<Notification>| #[trigger] close_post(s, x, reason, t, r);
        assert(close_post(s, x, reason, t, r));
    }
}

proof fn lemma_next_id_grows(stores: Seq<Store>, adds: Seq<bool>, ids: Seq<u32>, i: int, j: int)
    requires
        stores.len() == ids.len() + 1,
        adds.len() == ids.len(),
        forall|k: int| 0 <= k < ids.len() ==> run_step(#[trigger] stores[k], stores[k + 1], adds[k], ids[k]),
        0 <= i < j <= ids.len(),
        adds[i],
    ensures
        stores[j].next_id > ids[i],
    decreases j - i,
{
    assert(run_step(stores[j - 1], stores[j], adds[j - 1], ids[j - 1]));
    lemma_step_next_id(stores[j - 1], stores[j], adds[j - 1], ids[j - 1]);
    if j - 1 > i {
        lemma_next_id_grows(stores, adds, ids, i, j - 1);
    }
}

/// Along any run of `add` calls that replace nothing, with `close` calls
/// anywhere in between, each `add` gets a larger id than every `add`
/// before it, and no id it gets is active when it gets it.
pub proof fn lemma_fresh_ids_increase(stores: Seq<Store>, adds: Seq<bool>, ids: Seq<u32>)
    requires
        stores.len() == ids.len() + 1,
        adds.len() == ids.len(),
        forall|k: int| 0 <= k < ids.len() ==> (#[trigger] stores[k]).wf(),
        forall|k: int| 0 <= k < ids.len() ==> run_step(#[trigger] stores[k], stores[k + 1], adds[k], ids[k]),
    ensures
        forall|i: int, j: int| 0 <= i < j < ids.len() && adds[i] && adds[j] ==> ids[i] < ids[j],
        forall|i: int| 0 <= i < ids.len() && adds[i] ==> !(#[trigger] stores[i]).active(ids[i]),
{
    assert forall|i: int, j: int| 0 <= i < j < ids.len() && adds[i] && adds[j] implies ids[i] < ids[j] by {
        lemma_next_id_grows(stores, adds, ids, i, j);
        assert(run_step(stores[j], stores[j + 1], adds[j], ids[j]));
        lemma_step_next_id(stores[j], stores[j + 1], adds[j], ids[j]);
    }
    assert forall|i: int| 0 <= i < ids.len() && adds[i] implies !(#[trigger] stores[i]).active(ids[i]) by {
        assert(run_step(stores[i], stores[i + 1], adds[i], ids[i]));
        lemma_step_next_id(stores[i], stores[i + 1], adds[i], ids[i]);
        assert(stores[i].wf());
    }
}

/// Group integrity survives every `add` whose replacement, if any, keeps
/// the group of what it replaces.
pub proof fn lemma_add_keeps_group_integrity(s: Store, noti: Notification, replaces_id: u32, t: Store, id: u32)
    requires
        s.wf(),
        s.groups_consistent(),
        keeps_group(s, noti, replaces_id),
        add_post(s, noti, replaces_id, t, id),
    ensures
        t.groups_consistent(),
{
    if replaces(s, replaces_id) {
        lemma_replace_consistent(s, t, replaces_id);
    } else {
        lemma_add_consistent(s, t, id, Notification { id: id, ..noti });
    }
}

/// Group integrity survives every `close`.
pub proof fn lemma_close_keeps_group_integrity(s: Store, id: u32, reason: CloseReason, t: Store, r: Option<Notification>)
    requires
        s.wf(),
        s.groups_consistent(),
        close_post(s, id, reason, t, r),
    ensures
        t.groups_consistent(),
{
    if s.notifications@.contains_key(id) {
        lemma_close_consistent(s, t, id);
    }
}

/// Replacing an active notification keeps the order exactly as it was and
/// leaves the id among the replaced ids once, however often it was
/// replaced since the last drain.
pub proof fn lemma_replace_in_place(s: Store, noti: Notification, x: u32, t: Store, id: u32)
    requires
        s.wf(),
        x > 0,
        s.active(x),
        add_post(s, noti, x, t, id),
    ensures
        id == x,
        t.order@ == s.order@,
        count_of(t.replaced_ids@, x) == 1,
{
    let r = s.replaced_ids@;
    if r.contains(x) {
        lemma_count_unique(r, x);
    } else {
        lemma_count_absent(r, x);
        assert(r.push(x).drop_last() =~= r);
    }
}

/// Closing the same id twice: the first close returns the notification,
/// the second returns none, and the two log one event between them.
pub proof fn lemma_close_twice(
    s0: Store,
    id: u32,
    a: CloseReason,
    s1: Store,
    r1: Option<Notification>,
    b: CloseReason,
    s2: Store,
    r2: Option<Notification>,
)
    requires
        s0.wf(),
        s0.active(id),
        s0.config.log_enabled,
        close_post(s0, id, a, s1, r1),
        close_post(s1, id, b, s2, r2),
    ensures
        r1 is Some,
        r2 is None,
        s2.log@.len() == s0.log@.len() + 1,
{
}

proof fn lemma_popup_ids_members(order: Seq<u32>, ns: Map<u32, Notification>, dnd: bool, id: u32)
    ensures
        popup_ids(order, ns, dnd).contains(id) <==> (order.contains(id) && ns.contains_key(id)
            && shown_as_popup(ns[id], dnd)),
    decreases order.len(),
{
    if order.len() > 0 {
        let d = order.drop_last();
        lemma_popup_ids_members(d, ns, dnd, id);
        assert(order =~= d.push(order.last()));
        lemma_push_contains(d, order.last(), id);
        lemma_push_contains(popup_ids(d, ns, dnd), order.last(), id);
    }
}

/// Under Do Not Disturb the popups are exactly the critical notifications
/// of the order.
pub proof fn lemma_dnd_popups(s: Store, id: u32)
    requires
        s.wf(),
        s.dnd,
    ensures
        popup_ids(s.order@, s.notifications@, s.dnd).contains(id) <==> (s.order@.contains(id)
            && s.notifications@[id].urgency == Urgency::Critical),
{
    lemma_popup_ids_members(s.order@, s.notifications@, s.dnd, id);
}

} // verus!
