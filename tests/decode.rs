use xnotid::hints::{get_hint_i32, get_hint_string, parse_actions, parse_image, Hint, HintValue};
use xnotid::notification::{ImageData, Notification, Urgency};

fn hint(key: &str, value: HintValue) -> Hint {
    Hint { key: key.to_string(), value, text: format!("{:?}", key) }
}

fn raw(width: i32) -> HintValue {
    HintValue::Image {
        width,
        height: 2,
        rowstride: 8,
        has_alpha: true,
        bits_per_sample: 8,
        channels: 4,
        data: vec![1, 2, 3, 4],
    }
}

fn strings(v: &[&str]) -> Vec<String> {
    v.iter().map(|s| s.to_string()).collect()
}

fn decode(app_icon: &str, body: &str, actions: Vec<String>, hints: Vec<Hint>) -> Notification {
    Notification::new(
        0,
        "app".to_string(),
        app_icon.to_string(),
        "S".to_string(),
        body.to_string(),
        actions,
        hints,
        -1,
    )
}

#[test]
fn odd_action_list_drops_trailing_key() {
    let actions = parse_actions(&strings(&["a", "A", "b"]));
    assert_eq!(actions.len(), 1);
    assert_eq!(actions[0].key, "a");
    assert_eq!(actions[0].label, "A");
}

#[test]
fn even_action_list_gives_pairs() {
    let actions = parse_actions(&strings(&["a", "A", "b", "B"]));
    assert_eq!(actions.len(), 2);
    assert_eq!(actions[1].key, "b");
    assert_eq!(actions[1].label, "B");
}

#[test]
fn empty_action_list_gives_none() {
    assert!(parse_actions(&Vec::new()).is_empty());
    assert!(parse_actions(&strings(&["only"])).is_empty());
}

#[test]
fn urgency_byte_mapping() {
    assert_eq!(Urgency::from(0u8), Urgency::Low);
    assert_eq!(Urgency::from(1u8), Urgency::Normal);
    assert_eq!(Urgency::from(2u8), Urgency::Critical);
    assert_eq!(Urgency::from(7u8), Urgency::Normal);
}

#[test]
fn urgency_hint_decoded() {
    let n = decode("", "B", vec![], vec![hint("urgency", HintValue::U8(2))]);
    assert_eq!(n.urgency, Urgency::Critical);
    let n = decode("", "B", vec![], vec![hint("urgency", HintValue::U8(0))]);
    assert_eq!(n.urgency, Urgency::Low);
}

#[test]
fn mistyped_hints_fall_back_to_defaults() {
    let hints = vec![
        hint("urgency", HintValue::Str("2".to_string())),
        hint("x-group", HintValue::U8(1)),
        hint("transient", HintValue::I32(1)),
        hint("x-acknowledge", HintValue::Other),
        hint("value", HintValue::Bool(true)),
    ];
    let n = decode("", "B", vec![], hints);
    assert_eq!(n.urgency, Urgency::Normal);
    assert_eq!(n.group, None);
    assert!(!n.transient);
    assert!(!n.acknowledge_to_dismiss);
    assert_eq!(n.progress, None);
}

#[test]
fn typed_hints_decoded() {
    let hints = vec![
        hint("x-group", HintValue::Str("mail".to_string())),
        hint("transient", HintValue::Bool(true)),
        hint("x-acknowledge", HintValue::Bool(true)),
        hint("value", HintValue::I32(42)),
        hint("desktop-entry", HintValue::Str("org.app".to_string())),
        hint("x-css-class", HintValue::Str("warn".to_string())),
    ];
    let n = decode("", "B", strings(&["ok", "OK"]), hints);
    assert_eq!(n.group.as_deref(), Some("mail"));
    assert!(n.transient);
    assert!(n.acknowledge_to_dismiss);
    assert_eq!(n.progress, Some(42));
    assert_eq!(n.desktop_entry.as_deref(), Some("org.app"));
    assert_eq!(n.css_class.as_deref(), Some("warn"));
    assert_eq!(n.actions.len(), 1);
    assert_eq!(n.timeout, -1);
    assert_eq!(n.summary, "S");
    assert_eq!(n.id, 0);
}

#[test]
fn unsigned_progress_is_reinterpreted() {
    let hints = vec![hint("value", HintValue::U32(55))];
    assert_eq!(get_hint_i32(&hints, "value"), Some(55));
    let hints = vec![hint("value", HintValue::U32(u32::MAX))];
    assert_eq!(get_hint_i32(&hints, "value"), Some(-1));
}

#[test]
fn first_hint_of_a_key_counts() {
    let hints = vec![
        hint("x-group", HintValue::Str("first".to_string())),
        hint("x-group", HintValue::Str("second".to_string())),
    ];
    assert_eq!(get_hint_string(&hints, "x-group").as_deref(), Some("first"));
    assert_eq!(get_hint_string(&hints, "absent"), None);
}

#[test]
fn raw_image_beats_image_path() {
    let hints = vec![
        hint("image-path", HintValue::Str("/tmp/a.png".to_string())),
        hint("image-data", raw(3)),
    ];
    match parse_image(&hints, &"icon".to_string()) {
        ImageData::Raw { width, data, .. } => {
            assert_eq!(width, 3);
            assert_eq!(data, vec![1, 2, 3, 4]);
        }
        other => panic!("expected raw image, got {:?}", other),
    }
}

#[test]
fn raw_image_keys_in_order() {
    let hints = vec![hint("icon_data", raw(9)), hint("image_data", raw(5))];
    match parse_image(&hints, &String::new()) {
        ImageData::Raw { width, .. } => assert_eq!(width, 5),
        other => panic!("expected raw image, got {:?}", other),
    }
}

#[test]
fn image_path_classified() {
    let hints = vec![hint("image-path", HintValue::Str("file:///tmp/x.png".to_string()))];
    assert_eq!(parse_image(&hints, &String::new()), ImageData::Path("file:///tmp/x.png".to_string()));
    let hints = vec![hint("image_path", HintValue::Str("dialog-information".to_string()))];
    assert_eq!(parse_image(&hints, &String::new()), ImageData::Name("dialog-information".to_string()));
}

#[test]
fn empty_path_hint_falls_through_to_app_icon() {
    let hints = vec![hint("image-path", HintValue::Str(String::new()))];
    assert_eq!(parse_image(&hints, &"/usr/share/icon.png".to_string()), ImageData::Path("/usr/share/icon.png".to_string()));
    assert_eq!(parse_image(&hints, &"firefox".to_string()), ImageData::Name("firefox".to_string()));
    assert_eq!(parse_image(&hints, &String::new()), ImageData::Empty);
}

#[test]
fn snapshot_leaves_out_consumed_hints() {
    let hints = vec![
        Hint { key: "urgency".to_string(), value: HintValue::U8(1), text: "1".to_string() },
        Hint { key: "x-group".to_string(), value: HintValue::Str("g".to_string()), text: "g".to_string() },
        Hint { key: "image-data".to_string(), value: raw(1), text: "img".to_string() },
        Hint { key: "sound".to_string(), value: HintValue::Other, text: "s".to_string() },
    ];
    let n = decode("", "B", vec![], hints);
    assert_eq!(
        n.hints,
        vec![("x-group".to_string(), "g".to_string()), ("sound".to_string(), "s".to_string())]
    );
}

#[test]
fn correlation_ids_are_fresh() {
    let a = decode("", "B", vec![], vec![]);
    let b = decode("", "B", vec![], vec![]);
    assert_eq!(a.uuid.len(), 36);
    assert_ne!(a.uuid, b.uuid);
    assert!(a.created_at.secs > 0);
}
