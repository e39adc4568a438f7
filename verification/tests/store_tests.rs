use flag_detection::codec::{encode_flag, flag_of_text};
use flag_detection::models::{Flag, FlagType, MetricValue, Severity};
use flag_detection::storage::{decode_artifacts, flag_file_name, get_flags_by_session, FlagStorage};
use flag_detection::ingest::has_json_extension;
use flag_detection::utils::{anonymize_text, hash_data};

fn sample_flag(session: &str) -> Flag {
    Flag {
        id: String::from("0f9d3a7c-1b2e-4c5d-8e9f-a0b1c2d3e4f5"),
        timestamp: String::from("2024-05-01T12:34:56.789012+00:00"),
        session_id: String::from(session),
        flag_type: FlagType::PerformanceIssue,
        severity: Severity::High,
        title: String::from("High CPU Usage"),
        description: String::from("CPU usage at 93.000% exceeds threshold of 90.000%"),
        data_source: String::from("system_metrics"),
        metrics: vec![
            (String::from("cpu_usage"), MetricValue::Fixed(93_000)),
            (String::from("threshold"), MetricValue::Fixed(90_000)),
        ],
        confidence: 950,
    }
}

#[test]
fn encode_then_parse_is_identity() {
    let flag = sample_flag("session-1");
    let body = encode_flag(&flag);
    let back = flag_of_text(body.as_str()).expect("a written artifact parses");
    assert_eq!(back, flag);
}

#[test]
fn round_trip_with_awkward_text() {
    let mut flag = sample_flag("session \"quoted\" \\ tab\t");
    flag.title = String::from("line\nbreak and nul\u{0}");
    flag.description = String::from("unicode \u{00e9}\u{4e16}\u{1f600} stays");
    flag.metrics = vec![
        (String::from("note"), MetricValue::Text(String::from("a\\b\"c\u{1}"))),
        (String::from("negative"), MetricValue::Fixed(-500)),
        (String::from("large"), MetricValue::Count(u64::MAX)),
        (String::from("tiny"), MetricValue::Fixed(i64::MIN)),
        (String::from("seen"), MetricValue::Truth(true)),
        (String::from("hidden"), MetricValue::Truth(false)),
    ];
    let body = encode_flag(&flag);
    let back = flag_of_text(body.as_str()).expect("escapes parse back");
    assert_eq!(back, flag);
}

#[test]
fn empty_metrics_round_trip() {
    let mut flag = sample_flag("session-1");
    flag.metrics = vec![];
    let body = encode_flag(&flag);
    assert!(body.contains("\"metrics\":{}"));
    let back = flag_of_text(body.as_str()).unwrap();
    assert_eq!(back, flag);
}

#[test]
fn artifact_is_plain_json() {
    let flag = sample_flag("session-1");
    let body = encode_flag(&flag);
    let v: serde_json::Value = serde_json::from_str(body.as_str()).expect("valid JSON");
    assert_eq!(v["id"], "0f9d3a7c-1b2e-4c5d-8e9f-a0b1c2d3e4f5");
    assert_eq!(v["session_id"], "session-1");
    assert_eq!(v["flag_type"]["type"], "PerformanceIssue");
    assert_eq!(v["severity"], "High");
    assert_eq!(v["data_source"], "system_metrics");
    assert_eq!(v["metrics"]["cpu_usage"], 93.0);
    assert_eq!(v["metrics"]["threshold"], 90.0);
    assert_eq!(v["confidence"], 0.95);
}

#[test]
fn malformed_artifacts_are_refused() {
    assert!(flag_of_text("").is_none());
    assert!(flag_of_text("{}").is_none());
    assert!(flag_of_text("not json at all").is_none());
    let flag = sample_flag("session-1");
    let body = encode_flag(&flag);
    let mut truncated = body.clone();
    truncated.pop();
    assert!(flag_of_text(truncated.as_str()).is_none());
    let trailing = format!("{} ", body);
    assert!(flag_of_text(trailing.as_str()).is_none());
}

#[test]
fn decode_skips_bad_artifacts() {
    let a = sample_flag("session-1");
    let mut b = sample_flag("session-2");
    b.title = String::from("High Memory Usage");
    let texts = vec![
        encode_flag(&a),
        String::from("{ corrupt"),
        encode_flag(&b),
    ];
    let flags = decode_artifacts(&texts);
    assert_eq!(flags.len(), 2);
    assert_eq!(flags[0], a);
    assert_eq!(flags[1], b);
}

#[test]
fn save_artifact_names_and_body() {
    let store = FlagStorage::new("../data/flags");
    assert_eq!(store.get_flags_dir(), "../data/flags");
    let flag = sample_flag("session-1");
    let (name, body) = store.save_artifact(&flag);
    assert!(name.starts_with("flag_"));
    assert!(name.ends_with("_0f9d3a7c.json"));
    let back = flag_of_text(body.as_str()).unwrap();
    assert_eq!(back, flag);
}

#[test]
fn file_name_shape() {
    let flag = sample_flag("session-1");
    let name = flag_file_name("2024-05-01_12-34-56-789", &flag);
    assert_eq!(name, "flag_2024-05-01_12-34-56-789_0f9d3a7c.json");
}

#[test]
fn session_query_filters_by_equality() {
    let a = sample_flag("session-1");
    let b = sample_flag("session-2");
    let c = sample_flag("session-1");
    let picked = get_flags_by_session(vec![a.clone(), b.clone(), c.clone()], "session-1");
    assert_eq!(picked.len(), 2);
    assert_eq!(picked[0], a);
    assert_eq!(picked[1], c);
    let none = get_flags_by_session(vec![a, b, c], "session-3");
    assert!(none.is_empty());
}

#[test]
fn snapshot_name_filter() {
    assert!(has_json_extension("a.json"));
    assert!(has_json_extension("b.txt.json"));
    assert!(!has_json_extension("ajson"));
    assert!(!has_json_extension(".json"));
    assert!(!has_json_extension("x.JSON"));
    assert!(!has_json_extension("data.jsonl"));
}

#[test]
fn hash_data_matches_published_vector() {
    assert_eq!(
        hash_data(b"abc"),
        "ba7816bf8f01cfea414140de5dae2223b00361a396177a9cb410ff61f20015ad"
    );
    assert_eq!(
        hash_data(b""),
        "e3b0c44298fc1c149afbf4c8996fb92427ae41e4649b934ca495991b7852b855"
    );
}

#[test]
fn anonymize_text_uses_digest_prefix() {
    assert_eq!(anonymize_text("abc"), "anon_ba7816bf");
    assert_eq!(anonymize_text("abc"), anonymize_text("abc"));
}
