use ferrus::clock::{lease_end_at, parse_lease_until, running_lease, timestamp, Instant};
use ferrus::json::{
    empty_object, parse_json, parse_toml, print_json, print_toml, put_key, take_key, take_list,
    take_object, Json,
};
use ferrus::legacy_state::{task_status_for_legacy_state, LegacyStateData, LegacyTaskState};
use ferrus::runtime_status::TaskStatus;

fn text(value: &str) -> Json {
    Json::Text(value.to_string())
}

#[test]
fn json_documents_are_read() {
    let document = parse_json("{\"b\":[1,\"x\",null],\"a\":{}}").unwrap();
    assert_eq!(
        document,
        Json::Object(vec![
            ("a".to_string(), Json::Object(Vec::new())),
            (
                "b".to_string(),
                Json::List(vec![
                    Json::Unsigned(1),
                    text("x"),
                    Json::Null
                ])
            ),
        ])
    );
    assert!(parse_json("{").is_none());
    assert_eq!(document.get("a"), Some(&Json::Object(Vec::new())));
    assert_eq!(document.get("c"), None);
    assert_eq!(text("x").as_text(), Some(&"x".to_string()));
    assert_eq!(Json::Unsigned(4).as_unsigned(), Some(4));
    assert_eq!(Json::Integer(-4).as_unsigned(), None);
}

#[test]
fn json_documents_keep_what_is_not_read() {
    let written = "{\n  \"flag\": true,\n  \"ratio\": 0.5\n}";
    assert_eq!(print_json(parse_json(written).unwrap()), written);
    assert_eq!(print_json(empty_object()), "{}");
    let plain = "{\"a\":[\"\\u0001 \\\"x\\\"\",18446744073709551615,null],\"b\":{}}";
    let document = parse_json(plain).unwrap();
    let written = print_json(parse_json(plain).unwrap());
    assert_eq!(parse_json(&written), Some(document));
    let nested = |levels: usize| format!("{}{}", "[".repeat(levels), "]".repeat(levels));
    assert!(parse_json(&nested(127)).is_some());
    assert!(parse_json(&nested(128)).is_none());
}

#[test]
fn toml_documents_are_read_and_written() {
    let document = parse_toml("name = \"x\"\n[limits]\ntasks = 3\n").unwrap();
    assert_eq!(document.get("name"), Some(&text("x")));
    assert_eq!(
        document.get("limits").and_then(|limits| limits.get("tasks")),
        Some(&Json::Integer(3))
    );
    assert_eq!(
        print_toml(document).as_deref(),
        Some("name = \"x\"\n\n[limits]\ntasks = 3\n")
    );
    assert!(parse_toml("= 3").is_none());
}

#[test]
fn keys_are_set_locally() {
    let mut entries = vec![("b".to_string(), text("old")), ("c".to_string(), Json::Null)];
    put_key(&mut entries, "a", Json::Unsigned(1));
    put_key(&mut entries, "b", text("new"));
    assert_eq!(
        entries,
        vec![
            ("a".to_string(), Json::Unsigned(1)),
            ("b".to_string(), text("new")),
            ("c".to_string(), Json::Null),
        ]
    );
    assert_eq!(take_key(&mut entries, "b"), Some(text("new")));
    assert_eq!(take_key(&mut entries, "b"), None);
    assert!(take_object(&mut entries, "a").is_empty());
    assert!(take_list(&mut entries, "missing").is_empty());
}

#[test]
fn leases_are_written_and_read_back() {
    let now = Instant { secs: 1_700_049_600, nanos: 5 };
    let end = lease_end_at(now, 90);
    assert_eq!(end, Instant { secs: 1_700_049_690, nanos: 5 });
    let written = timestamp(end);
    assert_eq!(written, "2023-11-15T12:01:30Z");
    let read = Instant { secs: 1_700_049_690, nanos: 0 };
    assert_eq!(parse_lease_until(&Some(written.clone())), Some(read));
    assert_eq!(running_lease(&Some(written.clone()), now), Some(read));
    assert_eq!(running_lease(&Some(written), read), None);
    assert_eq!(
        parse_lease_until(&Some("2023-11-15T13:01:30+01:00".to_string())),
        Some(read)
    );
    assert_eq!(parse_lease_until(&Some("tomorrow".to_string())), None);
    assert_eq!(parse_lease_until(&None), None);
}

#[test]
fn a_lease_length_is_added_as_a_signed_number() {
    let now = Instant { secs: 100, nanos: 0 };
    assert_eq!(lease_end_at(now, u64::MAX), Instant { secs: 99, nanos: 0 });
}

#[test]
fn older_state_files_are_idle_where_they_say_nothing() {
    let file = LegacyStateData {
        state: None,
        task_spec: None,
        task_milestone: None,
        selected_spec: None,
        selected_milestone: None,
        updated_at: None,
    };
    assert_eq!(file.state(), LegacyTaskState::Idle);
    assert_eq!(
        task_status_for_legacy_state(&LegacyTaskState::Addressing),
        TaskStatus::Addressing
    );
    assert_eq!(TaskStatus::AwaitingHuman.as_str(), "awaiting_human");
}
