use vstd::prelude::*;
use std::sync::mpsc::Sender;
use crate::hints::Hint;
use crate::notification::{CloseReason, Notification, decoded};
use crate::store::{Store, add_post, close_post, entry_for, replaces, without};

verus! {

/// Commands from the protocol side to the presentation side.
#[derive(Debug, Clone, Copy, PartialEq, Eq, Structural)]
pub enum UiCommand {
    ToggleCenter,
}

/// Signals that the protocol side emits on behalf of the presentation side.
#[derive(Debug, Clone, PartialEq, Eq)]
pub enum DbusSignal {
    ActionInvoked { id: u32, action_key: String },
    NotificationClosed { id: u32, reason: u32 },
}

#[verifier::external_type_specification]
#[verifier::external_body]
#[verifier::reject_recursive_types(T)]
pub struct ExSender<T>(Sender<T>);

/// Relies on std's Sender::send: queues the command unless the receiving
/// side has gone; the outcome is true where it was queued.
#[verifier::external_body]
fn send_command(tx: &Sender<UiCommand>, cmd: UiCommand) -> (r: bool) {
    tx.send(cmd).is_ok()
}

/// The secondary control surface: forwards its one command to the
/// presentation side and holds no state of its own.
pub struct ControlServer {
    cmd_tx: Sender<UiCommand>,
}

impl ControlServer {
    /// The queue that commands go to.
    pub closed spec fn sender(&self) -> Sender<UiCommand> {
        self.cmd_tx
    }

    pub fn new(cmd_tx: Sender<UiCommand>) -> (r: ControlServer)
        ensures
            r.sender() == cmd_tx,
    {
        ControlServer { cmd_tx }
    }

    /// Asks the presentation side to toggle the notification center: sends
    /// `toggle_command()` once; a receiver that has gone is ignored.
    pub fn toggle_center(&self) {
        let _ = send_command(&self.cmd_tx, toggle_command());
    }
}

/// The command that the control surface's one request forwards.
pub fn toggle_command() -> (r: UiCommand)
    ensures
        r == UiCommand::ToggleCenter,
{
    UiCommand::ToggleCenter
}

/// Milliseconds that the signal task waits after finding its queue empty.
pub const SIGNAL_POLL_MS: u64 = 50;

/// What one poll of the outbound signal queue found.
#[derive(Debug, Clone, PartialEq, Eq)]
pub enum Polled {
    Signal(DbusSignal),
    Empty,
    Disconnected,
}

/// What the signal task does next.
#[derive(Debug, Clone, PartialEq, Eq)]
pub enum DrainAction {
    /// Emit this signal on the bus, then poll again.
    Emit(DbusSignal),
    /// Wait this many milliseconds, then poll again.
    Sleep(u64),
    /// The presentation side has gone: stop.
    Stop,
}

/// One step of the signal task: a queued signal is emitted, an empty queue
/// waits one poll interval, a disconnected queue ends the task.
pub fn drain_step(p: Polled) -> (r: DrainAction)
    ensures
        r == match p {
            Polled::Signal(s) => DrainAction::Emit(s),
            Polled::Empty => DrainAction::Sleep(SIGNAL_POLL_MS),
            Polled::Disconnected => DrainAction::Stop,
        },
{
    match p {
        Polled::Signal(s) => DrainAction::Emit(s),
        Polled::Empty => DrainAction::Sleep(SIGNAL_POLL_MS),
        Polled::Disconnected => DrainAction::Stop,
    }
}

pub open spec fn texts_view(v: Seq<String>) -> Seq<Seq<char>> {
    v.map_values(|s: String| s@)
}

/// The fixed capabilities that the server announces.
pub open spec fn capabilities() -> Seq<Seq<char>> {
    seq!["body"@, "body-markup"@, "body-images"@, "actions"@, "persistence"@, "icon-static"@]
}

pub fn get_capabilities() -> (r: Vec<String>)
    ensures
        texts_view(r@) == capabilities(),
{
    let mut r: Vec<String> = Vec::new();
    r.push(String::from_str("body"));
    r.push(String::from_str("body-markup"));
    r.push(String::from_str("body-images"));
    r.push(String::from_str("actions"));
    r.push(String::from_str("persistence"));
    r.push(String::from_str("icon-static"));
    assert(texts_view(r@) =~= capabilities());
    r
}

/// Name, vendor, version and protocol version of the server.
pub fn get_server_information(version: &str) -> (r: (String, String, String, String))
    ensures
        r.0@ == "xnotid"@,
        r.1@ == "xnotid"@,
        r.2@ == version@,
        r.3@ == "1.2"@,
{
    (
        String::from_str("xnotid"),
        String::from_str("xnotid"),
        String::from_str(version),
        String::from_str("1.2"),
    )
}

/// What a `Notify` request makes of store `s`: the decoded notification is
/// added under `replaces_id` and stands in `t` under `id`.
pub open spec fn notify_post(
    s: Store,
    app_name: Seq<char>,
    replaces_id: u32,
    app_icon: Seq<char>,
    summary: Seq<char>,
    body: Seq<char>,
    actions: Seq<String>,
    hints: Seq<Hint>,
    expire_timeout: i32,
    t: Store,
    id: u32,
) -> bool {
    &&& t.notifications@.contains_key(id)
    &&& decoded(t.notifications@[id], id, app_name, app_icon, summary, body, actions, hints, expire_timeout)
    &&& add_post(s, Notification { id: 0, ..t.notifications@[id] }, replaces_id, t, id)
}

/// Handles `Notify`: decodes the request and adds the notification to the
/// store; returns its id.
pub fn notify(
    store: &mut Store,
    app_name: &str,
    replaces_id: u32,
    app_icon: &str,
    summary: &str,
    body: &str,
    actions: Vec<String>,
    hints: Vec<Hint>,
    expire_timeout: i32,
) -> (r: u32)
    requires
        old(store).wf(),
        replaces(*old(store), replaces_id) || old(store).next_id < u32::MAX,
    ensures
        final(store).wf(),
        notify_post(*old(store), app_name@, replaces_id, app_icon@, summary@, body@, actions@, hints@, expire_timeout, *final(store), r),
{
    let ghost actions0 = actions@;
    let ghost hints0 = hints@;
    let noti = Notification::new(
        0,
        String::from_str(app_name),
        String::from_str(app_icon),
        String::from_str(summary),
        String::from_str(body),
        actions,
        hints,
        expire_timeout,
    );
    let id = store.add(noti, replaces_id);
    assert(Notification { id: 0, ..store.notifications@[id] } == noti);
    id
}

/// Handles `CloseNotification`: closes `id` for the reason `closed` and
/// returns the closing signal to emit, none where `id` was not active.
pub fn close_notification(store: &mut Store, id: u32) -> (r: Option<DbusSignal>)
    requires
        old(store).wf(),
    ensures
        final(store).wf(),
        old(store).active(id) ==> close_post(*old(store), id, CloseReason::Closed, *final(store), Some(old(store).notifications@[id])),
        !old(store).active(id) ==> close_post(*old(store), id, CloseReason::Closed, *final(store), None),
        r == (if old(store).active(id) {
            Some(DbusSignal::NotificationClosed { id: id, reason: 3 })
        } else {
            None
        }),
{
    let reason = CloseReason::Closed;
    match store.close(id, reason) {
        Some(_) => Some(DbusSignal::NotificationClosed { id, reason: reason.code() }),
        None => None,
    }
}

/// A user activated action `action_key` of notification `id`: the action is
/// logged, the notification closes as dismissed, and the returned signal
/// tells the sender.
pub fn invoke_action(store: &mut Store, id: u32, action_key: String) -> (r: DbusSignal)
    requires
        old(store).wf(),
    ensures
        final(store).wf(),
        r == (DbusSignal::ActionInvoked { id: id, action_key: action_key }),
        !old(store).active(id) ==> *final(store) == *old(store),
        old(store).active(id) ==> {
            &&& final(store).notifications@ == old(store).notifications@.remove(id)
            &&& final(store).order@ == without(old(store).order@, id)
            &&& old(store).config.log_enabled ==> {
                let n = old(store).notifications@[id];
                let k = old(store).log@.len() as int;
                &&& final(store).log@.len() == k + 2
                &&& final(store).log@.subrange(0, k) == old(store).log@
                &&& entry_for(final(store).log@[k], n, "action"@, Some(action_key@))
                &&& entry_for(final(store).log@[k + 1], n, "dismissed"@, None)
            }
        },
{
    let ghost s0 = *old(store);
    store.log_action(id, action_key.as_str());
    let ghost s1 = *store;
    let _ = store.close(id, CloseReason::Dismissed);
    proof {
        if s0.active(id) && s0.config.log_enabled {
            let k = s0.log@.len();
            assert(store.log@.drop_last() == s1.log@);
            assert(s1.log@.drop_last() == s0.log@);
            assert(store.log@[k as int] == s1.log@[k as int]);
            assert(store.log@.subrange(0, k as int) =~= s0.log@);
        }
    }
    DbusSignal::ActionInvoked { id, action_key }
}


/// A `Notify` followed by `CloseNotification` of the id it returned leaves
/// two audit events, `received` then `closed`, that carry the same
/// correlation id.
pub proof fn lemma_notify_then_close(
    s0: Store,
    app_name: Seq<char>,
    replaces_id: u32,
    app_icon: Seq<char>,
    summary: Seq<char>,
    body: Seq<char>,
    actions: Seq<String>,
    hints: Seq<Hint>,
    expire_timeout: i32,
    s1: Store,
    id: u32,
    s2: Store,
    r: Option<Notification>,
)
    requires
        s0.config.log_enabled,
        notify_post(s0, app_name, replaces_id, app_icon, summary, body, actions, hints, expire_timeout, s1, id),
        close_post(s1, id, CloseReason::Closed, s2, r),
    ensures
        s2.log@.len() == s0.log@.len() + 2,
        s2.log@[s0.log@.len() as int].event@ == "received"@,
        s2.log@[s0.log@.len() as int + 1].event@ == "closed"@,
        s2.log@[s0.log@.len() as int].uuid@ == s2.log@[s0.log@.len() as int + 1].uuid@,
{
    let k = s0.log@.len() as int;
    assert(s2.log@.drop_last() == s1.log@);
    assert(s2.log@[k] == s1.log@[k]);
}

} // verus!
