//! Entries of the report, their order, and the envelope around them.

use lm_provision::report::{build_envelope, in_declaration_order, DeclaredAt, StepReport};

#[test]
fn to_json_emits_only_the_set_fields_and_never_reason() {
    let mut r = StepReport::new("2_sh.exec".to_string(), "sh.exec".to_string(), "sh.exec");
    r.argv = Some(vec!["echo".to_string(), "hi".to_string()]);
    r.dry_run = Some(true);
    r.reason = Some("should not leak".to_string());
    let json = r.to_json();

    assert_eq!(json["id"], serde_json::Value::from("2_sh.exec"));
    assert_eq!(json["kind"], serde_json::Value::from("sh.exec"));
    assert_eq!(json["op"], serde_json::Value::from("sh.exec"));
    assert_eq!(json["ok"], serde_json::Value::from(true));
    assert_eq!(json["status"], serde_json::Value::from(0));
    assert_eq!(json["dry_run"], serde_json::Value::from(true));
    assert_eq!(json["argv"], serde_json::Value::from(vec!["echo", "hi"]));
    assert!(json.get("reason").is_none(), "reason must not serialize");
    assert!(json.get("stdout").is_none(), "unset fields are omitted");
}

#[test]
fn failure_reason_prefers_reason_then_stderr_then_default() {
    let mut r = StepReport::new("1_sh.exec".to_string(), "sh.exec".to_string(), "sh.exec");
    assert_eq!(r.failure_reason(), "unknown error");
    r.stderr = Some("boom".to_string());
    assert_eq!(r.failure_reason(), "boom");
    r.reason = Some("exit 3".to_string());
    assert_eq!(r.failure_reason(), "exit 3");
}

/// A declared position never serializes: it is how the array is
/// ordered, not something the report says.
#[test]
fn to_json_never_emits_the_declared_position() {
    let mut r = StepReport::new(
        "1_models_1".to_string(),
        "models".to_string(),
        "net.transfer",
    );
    r.declared_at = Some((1, 1));
    let json = r.to_json();
    assert!(json.get("declared_at").is_none());
    assert_eq!(json.as_object().expect("object").len(), 5);
}

fn placed(id: &str, at: Option<DeclaredAt>) -> StepReport {
    let mut entry = StepReport::new(id.to_string(), "models".to_string(), "net.transfer");
    entry.declared_at = at;
    entry
}

fn ids(steps: &[StepReport]) -> Vec<&str> {
    steps.iter().map(|s| s.id.as_str()).collect()
}

/// The case the parallel phase produces: entries pushed as they
/// finished, read back in the order the profile declared them.
#[test]
fn in_declaration_order_sorts_a_run_of_placed_entries() {
    let mut steps = vec![
        placed("1_models_3", Some((1, 3))),
        placed("1_models_1", Some((1, 1))),
        placed("1_models_2", Some((1, 2))),
    ];
    in_declaration_order(&mut steps);
    assert_eq!(ids(&steps), vec!["1_models_1", "1_models_2", "1_models_3"]);
}

/// Two parallel phases in a row form one run, and sorting it does not
/// interleave them: the phase index is the first half of the key.
#[test]
fn in_declaration_order_keeps_two_adjacent_phases_apart() {
    let mut steps = vec![
        placed("2_models_2", Some((2, 2))),
        placed("1_models_2", Some((1, 2))),
        placed("2_models_1", Some((2, 1))),
        placed("1_models_1", Some((1, 1))),
    ];
    in_declaration_order(&mut steps);
    assert_eq!(
        ids(&steps),
        vec!["1_models_1", "1_models_2", "2_models_1", "2_models_2"]
    );
}

/// An entry with no declared position is a fence: it neither moves
/// nor lets a placed entry cross it.
#[test]
fn in_declaration_order_leaves_unplaced_entries_where_they_were() {
    let mut steps = vec![
        placed("1_models_2", Some((1, 2))),
        placed("1_models_1", Some((1, 1))),
        placed("2_sh.exec", None),
        placed("3_models_2", Some((3, 2))),
        placed("3_models_1", Some((3, 1))),
    ];
    in_declaration_order(&mut steps);
    assert_eq!(
        ids(&steps),
        vec![
            "1_models_1",
            "1_models_2",
            "2_sh.exec",
            "3_models_1",
            "3_models_2"
        ]
    );
}

/// A wholly sequential report is untouched — the property that keeps
/// every pre-existing `step_ids` assertion true without amendment.
#[test]
fn in_declaration_order_is_the_identity_on_a_sequential_report() {
    let before = vec![
        placed("1_system.apt_1", Some((1, 1))),
        placed("2_sh.exec", None),
        placed("3_models_1", Some((3, 1))),
        placed("3_models_2", Some((3, 2))),
    ];
    let mut after = before.clone();
    in_declaration_order(&mut after);
    assert_eq!(ids(&after), ids(&before));
}

#[test]
fn build_envelope_sets_ok_from_error_presence() {
    let ok = build_envelope("demo", true, &[], None);
    assert_eq!(ok["ok"], serde_json::Value::from(true));
    assert_eq!(ok["dry_run"], serde_json::Value::from(true));
    assert_eq!(ok["profile_name"], serde_json::Value::from("demo"));
    assert_eq!(ok["steps"], serde_json::Value::Array(Vec::new()));
    assert!(ok.get("error").is_none());

    let failed = build_envelope("demo", false, &[], Some("step 1 (sh.exec) failed: boom"));
    assert_eq!(failed["ok"], serde_json::Value::from(false));
    assert_eq!(
        failed["error"],
        serde_json::Value::from("step 1 (sh.exec) failed: boom")
    );
}

/// Entries declared at one position keep the order they were pushed in.
#[test]
fn in_declaration_order_is_stable() {
    let mut steps = vec![
        placed("b", Some((1, 2))),
        placed("first", Some((1, 1))),
        placed("second", Some((1, 1))),
        placed("third", Some((1, 1))),
    ];
    in_declaration_order(&mut steps);
    assert_eq!(ids(&steps), vec!["first", "second", "third", "b"]);
    let once = ids(&steps).join(" ");
    in_declaration_order(&mut steps);
    assert_eq!(ids(&steps).join(" "), once);
}

#[test]
fn in_declaration_order_takes_an_empty_report() {
    let mut steps: Vec<StepReport> = Vec::new();
    in_declaration_order(&mut steps);
    assert!(steps.is_empty());
}

#[test]
fn an_empty_reason_says_nothing() {
    let mut r = StepReport::new("1".to_string(), "k".to_string(), "o");
    r.stderr = Some("boom".to_string());
    r.reason = Some(String::new());
    assert_eq!(r.failure_reason(), "unknown error");
    r.reason = None;
    r.stderr = Some(String::new());
    assert_eq!(r.failure_reason(), "unknown error");
}

#[test]
fn to_json_emits_every_field_that_is_set() {
    let mut r = StepReport::new("1".to_string(), "k".to_string(), "o");
    r.ok = false;
    r.status = -7;
    r.stdout = Some("out".to_string());
    r.stderr = Some("err".to_string());
    r.path = Some("/p".to_string());
    r.bytes = Some(u64::MAX);
    r.url = Some("https://u".to_string());
    r.src = Some("s".to_string());
    r.dst = Some("d".to_string());
    r.note = Some("n".to_string());
    r.dry_run = Some(false);
    let json = r.to_json();
    assert_eq!(json["ok"], false);
    assert_eq!(json["status"], -7);
    assert_eq!(json["stdout"], "out");
    assert_eq!(json["stderr"], "err");
    assert_eq!(json["path"], "/p");
    assert_eq!(json["bytes"], u64::MAX);
    assert_eq!(json["url"], "https://u");
    assert_eq!(json["src"], "s");
    assert_eq!(json["dst"], "d");
    assert_eq!(json["note"], "n");
    assert_eq!(json["dry_run"], false);
    assert_eq!(json.as_object().unwrap().len(), 14);
}

#[test]
fn an_envelope_holds_its_entries_in_order() {
    let steps = vec![placed("a", None), placed("b", None)];
    let envelope = build_envelope("demo", false, &steps, None);
    assert_eq!(envelope["steps"][0]["id"], "a");
    assert_eq!(envelope["steps"][1]["id"], "b");
    assert_eq!(envelope.as_object().unwrap().len(), 4);
}
