use temm1e::self_work::{consolidation_summary, first_step, review_note, review_request, SelfWorkKind, SelfWorkStep};

#[test]
fn self_work_no_llm_skips_gracefully() {
    match first_step(SelfWorkKind::FailureAnalysis, false) {
        SelfWorkStep::Finished(t) => assert!(t.contains("Skipped")),
        other => panic!("unexpected {:?}", other),
    }
    assert_eq!(first_step(SelfWorkKind::LogIntrospection, true), SelfWorkStep::LoadNotes(10));
    assert_eq!(first_step(SelfWorkKind::FailureAnalysis, true), SelfWorkStep::LoadNotes(20));
    assert_eq!(first_step(SelfWorkKind::MemoryConsolidation, false), SelfWorkStep::CleanupExpiredNotes);
    assert_eq!(consolidation_summary(), "Memory consolidated: expired notes cleaned");
    assert_eq!(
        first_step(SelfWorkKind::SessionCleanup, true),
        SelfWorkStep::Finished("Session cleanup complete".into())
    );
}

#[test]
fn review_prompts_and_notes() {
    assert_eq!(review_request(SelfWorkKind::FailureAnalysis, &vec![]), Err("No recent notes to analyze".to_string()));
    assert_eq!(review_request(SelfWorkKind::LogIntrospection, &vec![]), Err("No recent activity to introspect".to_string()));
    let p = review_request(SelfWorkKind::FailureAnalysis, &vec!["a".into(), "b".into()]).unwrap();
    assert_eq!(
        p,
        "Review these recent agent activity notes and identify any failure patterns or recurring issues:\n- a\n- b\n\nSummarize findings in 2-3 sentences. Focus on actionable patterns."
    );
    assert_eq!(review_note(SelfWorkKind::LogIntrospection, "x"), "Introspection: x");
    assert_eq!(review_note(SelfWorkKind::FailureAnalysis, "y"), "Failure analysis: y");
}

#[test]
fn consolidation_runs() {
    assert_eq!(first_step(SelfWorkKind::MemoryConsolidation, true), SelfWorkStep::CleanupExpiredNotes);
    assert!(!consolidation_summary().is_empty());
}

#[test]
fn cleanup_sessions_runs() {
    match first_step(SelfWorkKind::SessionCleanup, false) {
        SelfWorkStep::Finished(t) => assert_eq!(t, "Session cleanup complete"),
        other => panic!("unexpected {:?}", other),
    }
}
