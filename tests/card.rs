use xnotid::card::{card_from_json, parse_card_body, Json};
use xnotid::notification::{CardChoice, Notification, NotificationCard};

fn with_body(body: &str) -> Notification {
    Notification::new(0, "app".to_string(), String::new(), "S".to_string(), body.to_string(), vec![], vec![], -1)
}

#[test]
fn permission_card_v1() {
    let n = with_body(r#"{"xnotid_card":"v1","type":"permission","question":"Allow?"}"#);
    assert_eq!(
        n.card,
        Some(NotificationCard::Permission { question: "Allow?".to_string(), allow_label: "Allow".to_string() })
    );
    assert!(n.acknowledge_to_dismiss);
}

#[test]
fn card_with_other_marker_is_ignored() {
    let n = with_body(r#"{"xnotid_card":"v2","type":"permission","question":"Allow?"}"#);
    assert_eq!(n.card, None);
    assert!(!n.acknowledge_to_dismiss);
}

#[test]
fn plain_body_has_no_card() {
    assert_eq!(parse_card_body("Hello <b>world</b>"), None);
    assert_eq!(parse_card_body(""), None);
    assert_eq!(parse_card_body("[1, 2]"), None);
}

#[test]
fn permission_label_given() {
    let c = parse_card_body(r#"{"type":"permission","xnotid_card":"v1","question":"Q","allow_label":"Yes","extra":1}"#);
    assert_eq!(c, Some(NotificationCard::Permission { question: "Q".to_string(), allow_label: "Yes".to_string() }));
}

#[test]
fn multiple_choice_card() {
    let c = parse_card_body(
        r#"{"xnotid_card":"v1","type":"multiple-choice","question":"Pick","choices":[{"id":"a","label":"A"},{"id":"b","label":"B"}],"allow_other":true}"#,
    );
    assert_eq!(
        c,
        Some(NotificationCard::MultipleChoice {
            question: "Pick".to_string(),
            choices: vec![
                CardChoice { id: "a".to_string(), label: "A".to_string() },
                CardChoice { id: "b".to_string(), label: "B".to_string() },
            ],
            allow_other: true,
        })
    );
}

#[test]
fn multiple_choice_defaults_and_failures() {
    let c = parse_card_body(r#"{"xnotid_card":"v1","type":"multiple-choice","question":"Pick","choices":[]}"#);
    assert_eq!(c, Some(NotificationCard::MultipleChoice { question: "Pick".to_string(), choices: vec![], allow_other: false }));
    assert_eq!(parse_card_body(r#"{"xnotid_card":"v1","type":"multiple-choice","question":"Pick"}"#), None);
    assert_eq!(
        parse_card_body(r#"{"xnotid_card":"v1","type":"multiple-choice","question":"Pick","choices":[{"id":"a"}]}"#),
        None
    );
    assert_eq!(
        parse_card_body(r#"{"xnotid_card":"v1","type":"multiple-choice","question":"Pick","choices":[],"allow_other":"yes"}"#),
        None
    );
}

#[test]
fn card_needs_question_and_known_type() {
    assert_eq!(parse_card_body(r#"{"xnotid_card":"v1","type":"permission"}"#), None);
    assert_eq!(parse_card_body(r#"{"xnotid_card":"v1","type":"survey","question":"Q"}"#), None);
    assert_eq!(parse_card_body(r#"{"xnotid_card":"v1","question":"Q"}"#), None);
    assert_eq!(parse_card_body(r#"{"type":"permission","question":"Q"}"#), None);
    assert_eq!(parse_card_body(r#"{"xnotid_card":"v1","type":"permission","question":"Q","allow_label":null}"#), None);
}

#[test]
fn card_from_built_tree() {
    let obj = Json::Object(vec![
        ("xnotid_card".to_string(), Json::Str("v1".to_string())),
        ("type".to_string(), Json::Str("permission".to_string())),
        ("question".to_string(), Json::Str("Go?".to_string())),
        ("allow_label".to_string(), Json::Str("Go".to_string())),
    ]);
    assert_eq!(
        card_from_json(&obj),
        Some(NotificationCard::Permission { question: "Go?".to_string(), allow_label: "Go".to_string() })
    );
    let not_object = Json::Array(vec![Json::Null, Json::Bool(true), Json::Number("1".to_string())]);
    assert_eq!(card_from_json(&not_object), None);
}
