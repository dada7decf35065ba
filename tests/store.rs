use xnotid::config::Config;
use xnotid::hints::{Hint, HintValue};
use xnotid::notification::{CloseReason, Notification};
use xnotid::store::Store;

fn store() -> Store {
    Store::new(Config::with_log_path("/tmp/xnotid-test.jsonl".to_string()))
}

fn noti(summary: &str, hints: Vec<Hint>) -> Notification {
    Notification::new(0, "app".to_string(), String::new(), summary.to_string(), "B".to_string(), vec![], hints, -1)
}

fn group(g: &str) -> Vec<Hint> {
    vec![Hint { key: "x-group".to_string(), value: HintValue::Str(g.to_string()), text: String::new() }]
}

fn urgency(u: u8) -> Vec<Hint> {
    vec![Hint { key: "urgency".to_string(), value: HintValue::U8(u), text: String::new() }]
}

fn transient() -> Vec<Hint> {
    vec![Hint { key: "transient".to_string(), value: HintValue::Bool(true), text: String::new() }]
}

fn members(s: &Store, g: &str) -> Vec<u32> {
    s.groups.iter().find(|e| e.0 == g).map(|e| e.1.clone()).unwrap_or_default()
}

#[test]
fn fresh_ids_increase_from_one() {
    let mut s = store();
    let a = s.add(noti("a", vec![]), 0);
    let b = s.add(noti("b", vec![]), 0);
    s.close(a, CloseReason::Closed);
    let c = s.add(noti("c", vec![]), 0);
    assert_eq!((a, b, c), (1, 2, 3));
    assert_eq!(s.order, vec![3, 2]);
    assert_eq!(s.next_id, 4);
}

#[test]
fn unknown_replace_target_gets_new_id() {
    let mut s = store();
    let a = s.add(noti("a", vec![]), 0);
    let b = s.add(noti("b", vec![]), 77);
    assert_eq!((a, b), (1, 2));
    assert!(s.replaced_ids.is_empty());
}

#[test]
fn replace_keeps_position_and_records_once() {
    let mut s = store();
    let a = s.add(noti("a", vec![]), 0);
    let b = s.add(noti("b", vec![]), 0);
    let order = s.order.clone();
    assert_eq!(s.add(noti("a2", vec![]), a), a);
    assert_eq!(s.add(noti("a3", vec![]), a), a);
    assert_eq!(s.order, order);
    assert_eq!(s.get(a).unwrap().summary, "a3");
    assert_eq!(s.get(a).unwrap().id, a);
    assert_eq!(s.get(b).unwrap().summary, "b");
    assert_eq!(s.take_replaced_ids(), vec![a]);
    assert!(s.take_replaced_ids().is_empty());
}

#[test]
fn groups_follow_add_and_close() {
    let mut s = store();
    let a = s.add(noti("a", group("mail")), 0);
    let b = s.add(noti("b", group("mail")), 0);
    let c = s.add(noti("c", group("chat")), 0);
    let d = s.add(noti("d", vec![]), 0);
    assert_eq!(members(&s, "mail"), vec![a, b]);
    assert_eq!(members(&s, "chat"), vec![c]);
    s.close(a, CloseReason::Dismissed);
    assert_eq!(members(&s, "mail"), vec![b]);
    s.close(c, CloseReason::Expired);
    assert!(s.groups.iter().all(|e| e.0 != "chat"));
    s.close(d, CloseReason::Closed);
    assert_eq!(s.groups.len(), 1);
    for (key, ids) in &s.groups {
        for id in ids {
            assert_eq!(s.get(*id).unwrap().group.as_deref(), Some(key.as_str()));
        }
    }
}

#[test]
fn dnd_shows_only_critical() {
    let mut s = store();
    let low = s.add(noti("low", urgency(0)), 0);
    let crit = s.add(noti("crit", urgency(2)), 0);
    let normal = s.add(noti("normal", vec![]), 0);
    let all: Vec<u32> = s.visible_popups().iter().map(|n| n.id).collect();
    assert_eq!(all, vec![normal, crit, low]);
    s.dnd = true;
    let shown: Vec<u32> = s.visible_popups().iter().map(|n| n.id).collect();
    assert_eq!(shown, vec![crit]);
}

#[test]
fn history_leaves_out_transient() {
    let mut s = store();
    let a = s.add(noti("a", vec![]), 0);
    let _t = s.add(noti("t", transient()), 0);
    let b = s.add(noti("b", vec![]), 0);
    let ids: Vec<u32> = s.all_notifications().iter().map(|n| n.id).collect();
    assert_eq!(ids, vec![b, a]);
    assert_eq!(s.visible_popups().len(), 3);
}

#[test]
fn close_twice_logs_once() {
    let mut s = store();
    let a = s.add(noti("a", vec![]), 0);
    s.take_log_entries();
    assert!(s.close(a, CloseReason::Expired).is_some());
    assert!(s.close(a, CloseReason::Expired).is_none());
    let log = s.take_log_entries();
    assert_eq!(log.len(), 1);
    assert_eq!(log[0].event, "expired");
    assert_eq!(log[0].notification_id, Some(a));
    assert_eq!(log[0].body, None);
}

#[test]
fn close_reason_names_and_codes() {
    let reasons = [CloseReason::Expired, CloseReason::Dismissed, CloseReason::Closed, CloseReason::Undefined];
    let names: Vec<String> = reasons.iter().map(|r| r.event_name()).collect();
    let codes: Vec<u32> = reasons.iter().map(|r| r.code()).collect();
    assert_eq!(names, vec!["expired", "dismissed", "closed", "undefined"]);
    assert_eq!(codes, vec![1, 2, 3, 4]);
}

#[test]
fn clear_all_dismisses_each() {
    let mut s = store();
    let a = s.add(noti("a", group("g")), 0);
    let b = s.add(noti("b", vec![]), 0);
    s.take_log_entries();
    s.clear_all();
    assert!(s.order.is_empty());
    assert!(s.notifications.is_empty());
    assert!(s.groups.is_empty());
    let log = s.take_log_entries();
    let seen: Vec<(String, Option<u32>)> = log.iter().map(|e| (e.event.clone(), e.notification_id)).collect();
    assert_eq!(seen, vec![("dismissed".to_string(), Some(b)), ("dismissed".to_string(), Some(a))]);
}

#[test]
fn received_entry_has_full_content() {
    let mut s = store();
    let hints = vec![
        Hint { key: "desktop-entry".to_string(), value: HintValue::Str("org.app".to_string()), text: "d".to_string() },
        Hint { key: "urgency".to_string(), value: HintValue::U8(2), text: "2".to_string() },
    ];
    let a = s.add(noti("a", hints), 0);
    let log = s.take_log_entries();
    assert_eq!(log.len(), 1);
    let e = &log[0];
    assert_eq!(e.event, "received");
    assert_eq!(e.notification_id, Some(a));
    assert_eq!(e.urgency.as_deref(), Some("Critical"));
    assert_eq!(e.body.as_deref(), Some("B"));
    assert_eq!(e.app_icon.as_deref(), Some(""));
    assert_eq!(e.desktop_entry.as_deref(), Some("org.app"));
    assert_eq!(e.hints, Some(vec![("desktop-entry".to_string(), "d".to_string())]));
    assert_eq!(e.uuid, s.get(a).unwrap().uuid);
    let created = e.created_at.clone().unwrap();
    assert!(created.len() >= 20 && created.contains('T'));
    assert!(e.timestamp.len() >= 20 && e.timestamp.contains('T'));
}

#[test]
fn action_logged_for_active_only() {
    let mut s = store();
    let a = s.add(noti("a", vec![]), 0);
    s.take_log_entries();
    s.log_action(a, "open");
    s.log_action(99, "open");
    let log = s.take_log_entries();
    assert_eq!(log.len(), 1);
    assert_eq!(log[0].event, "action");
    assert_eq!(log[0].action_key.as_deref(), Some("open"));
    assert!(s.is_active(a));
}

#[test]
fn disabled_log_records_nothing() {
    let mut cfg = Config::with_log_path("/tmp/x.jsonl".to_string());
    cfg.log_enabled = false;
    let mut s = Store::new(cfg);
    let a = s.add(noti("a", vec![]), 0);
    s.close(a, CloseReason::Closed);
    assert!(s.take_log_entries().is_empty());
}

#[test]
fn can_add_at_the_end_of_ids() {
    let mut s = store();
    let a = s.add(noti("a", vec![]), 0);
    s.next_id = u32::MAX;
    assert!(!s.can_add(0));
    assert!(s.can_add(a));
}

#[test]
fn created_at_is_logged_as_rfc3339() {
    let mut s = store();
    let a = s.add(noti("a", vec![]), 0);
    let n = s.get(a).unwrap();
    assert!(n.created_at.nanos < 1_000_000_000);
    let log = s.take_log_entries();
    let created = log[0].created_at.clone().unwrap();
    assert!(created.ends_with("+00:00"));
    assert_eq!(&created[4..5], "-");
    assert!(log[0].timestamp.ends_with("+00:00"));
}
