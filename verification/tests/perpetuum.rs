use std::sync::Arc;
use temm1e::perpetuum::{
    parse_json, parse_volition_decision, Cycle, CycleAction,
    build_prompt, decision_from_json, ConcernSummary, InjectionDepth, JsonValue, Volition,
    VolitionConcernCreate, VolitionDecision, VolitionNotification,
};

#[test]
fn injection_depth_from_str() {
    assert_eq!(InjectionDepth::parse("minimal"), InjectionDepth::Minimal);
    assert_eq!(InjectionDepth::parse("full"), InjectionDepth::Full);
    assert_eq!(InjectionDepth::parse("standard"), InjectionDepth::Standard);
    assert_eq!(InjectionDepth::parse("unknown"), InjectionDepth::Standard);
}

#[test]
fn injection_depth_is_case_sensitive() {
    assert_eq!(InjectionDepth::parse("Full"), InjectionDepth::Standard);
    assert_eq!(InjectionDepth::parse(""), InjectionDepth::Standard);
}

fn s(x: &str) -> JsonValue {
    JsonValue::Str(x.to_string())
}

fn obj(members: Vec<(&str, JsonValue)>) -> JsonValue {
    JsonValue::Object(members.into_iter().map(|(k, v)| (k.to_string(), v)).collect())
}

#[test]
fn decision_from_empty_answer() {
    let v = obj(vec![
        ("create_concerns", JsonValue::Array(vec![])),
        ("cancel_concerns", JsonValue::Array(vec![])),
        ("notifications", JsonValue::Array(vec![])),
        ("state_recommendation", JsonValue::Null),
        ("internal_notes", JsonValue::Array(vec![])),
    ]);
    let d = decision_from_json(v);
    assert!(d.create_concerns.is_empty());
    assert!(d.cancel_concerns.is_empty());
    assert!(d.notifications.is_empty());
    assert!(d.state_recommendation.is_none());
    assert!(d.internal_notes.is_empty());
}

#[test]
fn decision_from_answer_with_actions() {
    let v = obj(vec![
        (
            "create_concerns",
            JsonValue::Array(vec![
                obj(vec![("concern_type", s("monitor")), ("name", s("error-log")), ("config", obj(vec![]))]),
                obj(vec![("name", s("no-type"))]),
                s("not an object"),
            ]),
        ),
        ("cancel_concerns", JsonValue::Array(vec![s("old-monitor-001"), JsonValue::Number("7".into())])),
        (
            "notifications",
            JsonValue::Array(vec![obj(vec![("chat_id", s("123")), ("message", s("Heads up: error spike detected"))])]),
        ),
        ("state_recommendation", s("sleep")),
        ("internal_notes", JsonValue::Array(vec![s("User seems done with the PR review topic")])),
    ]);
    let d = decision_from_json(v);
    assert_eq!(d.create_concerns.len(), 1);
    assert_eq!(d.create_concerns[0].name, "error-log");
    assert!(matches!(d.create_concerns[0].config, JsonValue::Object(ref m) if m.is_empty()));
    assert_eq!(d.cancel_concerns, vec!["old-monitor-001"]);
    assert_eq!(d.notifications.len(), 1);
    assert_eq!(d.notifications[0].chat_id, "123");
    assert_eq!(d.state_recommendation.as_deref(), Some("sleep"));
    assert_eq!(d.internal_notes.len(), 1);
}

#[test]
fn decision_from_non_object_is_empty() {
    let d = decision_from_json(JsonValue::Array(vec![]));
    assert!(d.create_concerns.is_empty() && d.internal_notes.is_empty());
    let d = decision_from_json(obj(vec![("create_concerns", s("x")), ("state_recommendation", JsonValue::Bool(true))]));
    assert!(d.create_concerns.is_empty());
    assert!(d.state_recommendation.is_none());
}

fn create(t: &str, name: &str) -> VolitionConcernCreate {
    VolitionConcernCreate { concern_type: t.into(), name: name.into(), config: JsonValue::Null }
}

#[test]
fn guardrails_cut_and_filter() {
    let vol = Volition::new(Arc::new(()), Arc::new(()), 2);
    let d = VolitionDecision {
        create_concerns: vec![create("initiative", "again"), create("monitor", "m1"), create("alarm", "a1")],
        cancel_concerns: vec!["a".into(), "b".into(), "c".into()],
        notifications: vec![VolitionNotification { chat_id: "1".into(), message: "hi".into() }],
        state_recommendation: Some("idle".into()),
        internal_notes: vec!["n".into()],
    };
    let out = vol.finish_cycle(Some(d));
    assert_eq!(out.create_concerns.len(), 1);
    assert_eq!(out.create_concerns[0].name, "m1");
    assert_eq!(out.cancel_concerns, vec!["a", "b"]);
    assert_eq!(out.notifications.len(), 1);
    assert_eq!(out.state_recommendation.as_deref(), Some("idle"));

    let fallback = vol.finish_cycle(None);
    assert!(fallback.create_concerns.is_empty());
    assert_eq!(fallback.internal_notes, vec!["Failed to parse initiative response"]);
}

fn concern(id: &str, sched: Option<&str>) -> ConcernSummary {
    ConcernSummary {
        id: id.into(),
        concern_type: "monitor".into(),
        name: "reddit".into(),
        source: "user".into(),
        state: "active".into(),
        schedule_desc: sched.map(|x| x.to_string()),
        last_fired: None,
        next_fire: None,
    }
}

#[test]
fn prompt_layout() {
    let p = build_prompt("NOW", &vec![], &vec![]);
    assert!(p.starts_with("NOW\n\nActive concerns:\nNo active concerns.\n\nYour previous notes:\nNo previous notes.\n\nThink about"));
    let p = build_prompt(
        "T",
        &vec![concern("c1", Some("every 5m")), concern("c2", None)],
        &vec!["first".into(), "second".into()],
    );
    assert!(p.contains(
        "Active concerns:\n- [c1] reddit (monitor) source=user every 5m\n- [c2] reddit (monitor) source=user once\n\n"
    ));
    assert!(p.contains("Your previous notes:\n- first\n- second\n\n"));
    assert!(p.ends_with("Any observations to remember?"));
}

#[test]
fn parse_empty_decision() {
    let text = r#"{"create_concerns":[],"cancel_concerns":[],"notifications":[],"state_recommendation":null,"internal_notes":[]}"#;
    let d = parse_volition_decision(text).unwrap();
    assert!(d.create_concerns.is_empty());
    assert!(d.cancel_concerns.is_empty());
    assert!(d.notifications.is_empty());
    assert!(d.state_recommendation.is_none());
    assert!(d.internal_notes.is_empty());
}

#[test]
fn parse_decision_with_actions() {
    let text = r#"{
        "create_concerns": [{"concern_type":"monitor","name":"error-log","config":{}}],
        "cancel_concerns": ["old-monitor-001"],
        "notifications": [{"chat_id":"123","message":"Heads up: error spike detected"}],
        "state_recommendation": "sleep",
        "internal_notes": ["User seems done with the PR review topic"]
    }"#;
    let d = parse_volition_decision(text).unwrap();
    assert_eq!(d.create_concerns.len(), 1);
    assert_eq!(d.create_concerns[0].name, "error-log");
    assert_eq!(d.cancel_concerns, vec!["old-monitor-001"]);
    assert_eq!(d.notifications.len(), 1);
    assert_eq!(d.state_recommendation.as_deref(), Some("sleep"));
    assert_eq!(d.internal_notes.len(), 1);
}

#[test]
fn parse_invalid_returns_none() {
    assert!(parse_volition_decision("not json").is_none());
}

#[test]
fn parse_json_reads_nested_documents() {
    let v = parse_json(r#"{"a":[1,{"b":null}],"c":"x"}"#, 10).unwrap();
    match v {
        JsonValue::Object(ms) => {
            assert_eq!(ms.len(), 2);
            assert_eq!(ms[0].0, "a");
            assert!(matches!(&ms[0].1, JsonValue::Array(xs) if xs.len() == 2));
            assert!(matches!(&ms[1].1, JsonValue::Str(t) if t == "x"));
        }
        other => panic!("unexpected {:?}", other),
    }
    assert!(parse_json("[[[1]]]", 3).is_none());
    assert!(parse_json("[[[1]]]", 4).is_some());
    assert!(parse_json("{oops", 10).is_none());
    assert!(parse_volition_decision("  {\"internal_notes\":[\"n\"]}  ").is_some());
}

fn host_volition() -> Volition<(), ()> {
    Volition::new(Arc::new(()), Arc::new(()), 2)
}

#[test]
fn cycle_asks_model_then_saves_notes_in_order() {
    let v = host_volition();
    let (state, action) = v.start_cycle("Now: noon", &vec![], Err("store down".to_string()));
    assert!(matches!(state, Cycle::Asking));
    match action {
        CycleAction::CallModel { system, prompt } => {
            assert!(system.starts_with("You are Tem's initiative system."));
            assert!(system.ends_with("\"internal_notes\":[]}"));
            assert!(prompt.contains("Your previous notes:\nNo previous notes."));
        }
        other => panic!("unexpected {:?}", other),
    }
    let answer = r#"{"create_concerns":[{"concern_type":"initiative","name":"x"}],"internal_notes":["first","second"]}"#;
    let (state, action) = v.on_answer(Ok(answer.to_string()));
    match &action {
        CycleAction::SaveNote { note, source } => {
            assert_eq!(note, "first");
            assert_eq!(source, "initiative_cycle");
        }
        other => panic!("unexpected {:?}", other),
    }
    // A failed save does not stop the cycle.
    let (state, action) = v.on_note_saved(state, false);
    assert!(matches!(&action, CycleAction::SaveNote { note, .. } if note == "second"));
    let (state, action) = v.on_note_saved(state, true);
    assert!(matches!(state, Cycle::Done));
    match action {
        CycleAction::Finish(Ok(d)) => {
            assert!(d.create_concerns.is_empty());
            assert_eq!(d.internal_notes, vec!["first".to_string(), "second".to_string()]);
        }
        other => panic!("unexpected {:?}", other),
    }
}

#[test]
fn cycle_model_error_ends_without_notes() {
    let v = host_volition();
    let (state, action) = v.on_answer(Err("timeout".to_string()));
    assert!(matches!(state, Cycle::Done));
    assert!(matches!(action, CycleAction::Finish(Err(e)) if e == "timeout"));
}

#[test]
fn cycle_unreadable_answer_saves_its_note() {
    let v = host_volition();
    let (_state, action) = v.on_answer(Ok("sure thing!".to_string()));
    assert!(matches!(action, CycleAction::SaveNote { note, .. } if note == "Failed to parse initiative response"));
}
