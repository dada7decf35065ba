use std::sync::mpsc::channel;
use xnotid::config::Config;
use xnotid::notification::Urgency;
use xnotid::server::{
    close_notification, drain_step, toggle_command, DrainAction, Polled, SIGNAL_POLL_MS, get_capabilities, get_server_information, invoke_action, notify, ControlServer,
    DbusSignal, UiCommand,
};
use xnotid::store::Store;

fn fresh_store() -> Store {
    Store::new(Config::with_log_path("/tmp/xnotid-test.jsonl".to_string()))
}

#[test]
fn notify_then_close_logs_received_then_closed() {
    let mut s = fresh_store();
    let id = notify(&mut s, "app", 0, "", "S", "B", vec![], vec![], -1);
    assert_eq!(id, 1);
    let sig = close_notification(&mut s, id);
    assert_eq!(sig, Some(DbusSignal::NotificationClosed { id, reason: 3 }));
    let log = s.take_log_entries();
    assert_eq!(log.len(), 2);
    assert_eq!(log[0].event, "received");
    assert_eq!(log[1].event, "closed");
    assert_eq!(log[0].uuid, log[1].uuid);
    assert_eq!(log[0].app_name.as_deref(), Some("app"));
    assert_eq!(log[1].summary.as_deref(), Some("S"));
}

#[test]
fn close_of_unknown_id_is_silent() {
    let mut s = fresh_store();
    assert_eq!(close_notification(&mut s, 5), None);
    assert!(s.take_log_entries().is_empty());
}

#[test]
fn notify_replaces_in_place() {
    let mut s = fresh_store();
    let id = notify(&mut s, "app", 0, "", "S", "B", vec![], vec![], 5000);
    let again = notify(&mut s, "app", id, "", "S2", "B2", vec!["k".to_string(), "K".to_string()], vec![], 0);
    assert_eq!(again, id);
    assert_eq!(s.order, vec![id]);
    let n = s.get(id).unwrap();
    assert_eq!(n.summary, "S2");
    assert_eq!(n.actions.len(), 1);
    assert_eq!(n.timeout, 0);
}

#[test]
fn capabilities_are_fixed() {
    assert_eq!(
        get_capabilities(),
        vec!["body", "body-markup", "body-images", "actions", "persistence", "icon-static"]
    );
}

#[test]
fn server_information() {
    let (name, vendor, version, spec) = get_server_information("0.3.1");
    assert_eq!((name.as_str(), vendor.as_str(), version.as_str(), spec.as_str()), ("xnotid", "xnotid", "0.3.1", "1.2"));
}

#[test]
fn action_is_logged_then_dismissed() {
    let mut s = fresh_store();
    let id = notify(&mut s, "app", 0, "", "S", "B", vec!["yes".to_string(), "Yes".to_string()], vec![], -1);
    s.take_log_entries();
    let sig = invoke_action(&mut s, id, "yes".to_string());
    assert_eq!(sig, DbusSignal::ActionInvoked { id, action_key: "yes".to_string() });
    assert!(!s.is_active(id));
    let events: Vec<String> = s.take_log_entries().into_iter().map(|e| e.event).collect();
    assert_eq!(events, vec!["action", "dismissed"]);
}

#[test]
fn toggle_center_forwards_command() {
    let (tx, rx) = channel();
    let control = ControlServer::new(tx);
    control.toggle_center();
    assert_eq!(rx.try_recv(), Ok(UiCommand::ToggleCenter));
    drop(rx);
    control.toggle_center();
}

#[test]
fn timeout_per_urgency() {
    let cfg = Config::with_log_path(String::new());
    assert_eq!(cfg.timeout_for_urgency(0), 5);
    assert_eq!(cfg.timeout_for_urgency(1), 10);
    assert_eq!(cfg.timeout_for_urgency(2), 0);
    assert_eq!(cfg.timeout_for_urgency(9), 10);
}

#[test]
fn popup_timeout_from_protocol_value() {
    let cfg = Config::with_log_path(String::new());
    assert_eq!(cfg.popup_timeout(0, Urgency::Normal), 0);
    assert_eq!(cfg.popup_timeout(-1, Urgency::Low), 5);
    assert_eq!(cfg.popup_timeout(-1, Urgency::Critical), 0);
    assert_eq!(cfg.popup_timeout(2500, Urgency::Normal), 2);
    assert_eq!(cfg.popup_timeout(300, Urgency::Normal), 1);
    assert_eq!(cfg.popup_timeout(i32::MAX, Urgency::Normal), 2147483);
}

#[test]
fn defaults() {
    let cfg = Config::with_log_path("/var/log/x.jsonl".to_string());
    assert_eq!(cfg.position_x, "right");
    assert_eq!(cfg.position_y, "top");
    assert_eq!(cfg.popup_width, 400);
    assert_eq!(cfg.max_visible, 3);
    assert!(cfg.log_enabled && cfg.dnd_enabled && cfg.hover_pause && !cfg.close_button_on_hover);
    assert_eq!(cfg.log_path, "/var/log/x.jsonl");
}

#[test]
fn toggle_command_is_toggle_center() {
    assert_eq!(toggle_command(), UiCommand::ToggleCenter);
}

#[test]
fn drain_step_per_poll_outcome() {
    let sig = DbusSignal::ActionInvoked { id: 4, action_key: "k".to_string() };
    assert_eq!(drain_step(Polled::Signal(sig.clone())), DrainAction::Emit(sig));
    assert_eq!(drain_step(Polled::Empty), DrainAction::Sleep(50));
    assert_eq!(SIGNAL_POLL_MS, 50);
    assert_eq!(drain_step(Polled::Disconnected), DrainAction::Stop);
}
