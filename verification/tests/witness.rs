use std::path::PathBuf;
use temm1e::witness::{aggregate_outcome, Predicate, PredicateResult, VerdictOutcome};

#[test]
fn aggregate_all_pass() {
    let r = vec![
        PredicateResult {
            predicate: Predicate::FileExists {
                path: PathBuf::from("/tmp/a"),
            },
            tier: 0,
            outcome: VerdictOutcome::Pass,
            detail: "".into(),
            advisory: false,
            latency_ms: 0,
        },
        PredicateResult {
            predicate: Predicate::FileExists {
                path: PathBuf::from("/tmp/b"),
            },
            tier: 0,
            outcome: VerdictOutcome::Pass,
            detail: "".into(),
            advisory: false,
            latency_ms: 0,
        },
    ];
    assert_eq!(aggregate_outcome(&r), VerdictOutcome::Pass);
}

#[test]
fn aggregate_one_fail_is_fail() {
    let r = vec![
        PredicateResult {
            predicate: Predicate::FileExists {
                path: PathBuf::from("/tmp/a"),
            },
            tier: 0,
            outcome: VerdictOutcome::Pass,
            detail: "".into(),
            advisory: false,
            latency_ms: 0,
        },
        PredicateResult {
            predicate: Predicate::FileExists {
                path: PathBuf::from("/tmp/b"),
            },
            tier: 0,
            outcome: VerdictOutcome::Fail,
            detail: "".into(),
            advisory: false,
            latency_ms: 0,
        },
    ];
    assert_eq!(aggregate_outcome(&r), VerdictOutcome::Fail);
}

#[test]
fn advisory_fail_does_not_fail_overall() {
    let r = vec![
        PredicateResult {
            predicate: Predicate::FileExists {
                path: PathBuf::from("/tmp/a"),
            },
            tier: 0,
            outcome: VerdictOutcome::Pass,
            detail: "".into(),
            advisory: false,
            latency_ms: 0,
        },
        PredicateResult {
            predicate: Predicate::AspectVerifier {
                rubric: "is it good?".into(),
                evidence_refs: vec![],
                advisory: true,
            },
            tier: 1,
            outcome: VerdictOutcome::Fail,
            detail: "".into(),
            advisory: true,
            latency_ms: 0,
        },
    ];
    assert_eq!(aggregate_outcome(&r), VerdictOutcome::Pass);
}

use std::sync::Arc;
use temm1e::witness::{
    assemble_verdict, build_reason, check_sealed, WitnessError, resolve_strictness, OverrideStrictness, PredicateCheckResult,
    Verdict, Witness, WitnessConfig, WitnessStrictness,
};

fn result(outcome: VerdictOutcome, advisory: bool, detail: &str) -> PredicateResult {
    PredicateResult {
        predicate: Predicate::FileExists { path: PathBuf::from("/tmp/x") },
        tier: 0,
        outcome,
        detail: detail.into(),
        advisory,
        latency_ms: 0,
    }
}

fn verdict(outcome: VerdictOutcome, rs: Vec<PredicateResult>) -> Verdict {
    let reason = build_reason(&rs);
    Verdict {
        subtask_id: "st-1".into(),
        outcome,
        per_predicate: rs,
        tier_usage: Default::default(),
        reason,
        latency_ms: 0,
    }
}

#[test]
fn aggregate_inconclusive_without_fail() {
    let r = vec![result(VerdictOutcome::Pass, false, ""), result(VerdictOutcome::Inconclusive, false, "")];
    assert_eq!(aggregate_outcome(&r), VerdictOutcome::Inconclusive);
    let r = vec![result(VerdictOutcome::Inconclusive, false, ""), result(VerdictOutcome::Fail, false, "")];
    assert_eq!(aggregate_outcome(&r), VerdictOutcome::Fail);
    assert_eq!(aggregate_outcome(&vec![]), VerdictOutcome::Pass);
}

#[test]
fn reason_counts_non_advisory_only() {
    let r = vec![
        result(VerdictOutcome::Pass, false, ""),
        result(VerdictOutcome::Fail, true, ""),
        result(VerdictOutcome::Inconclusive, false, ""),
    ];
    assert_eq!(build_reason(&r), "1/3 pass, 0 fail, 1 inconclusive");
}

#[test]
fn compose_final_reply_all_strictness_levels() {
    let w = Witness::new(Arc::new(()), PathBuf::from("/tmp"));
    let failed = verdict(
        VerdictOutcome::Fail,
        vec![result(VerdictOutcome::Pass, false, "a exists"), result(VerdictOutcome::Fail, false, "b missing")],
    );
    let block = w.compose_final_reply("Done!", &failed, WitnessStrictness::Block);
    let expected_head = "⚠ **Partial completion.**\n\nWitness verified 1/2 postconditions:\n\n✓ Verified:\n  • a exists\n\n✗ Could not verify:\n  • b missing\n\nThis work is incomplete according to the pre-committed contract.";
    assert!(block.starts_with(expected_head));
    assert!(block.ends_with("have NOT been modified or rolled back — they remain in place for your review."));
    assert_eq!(block.len(), expected_head.len() + 112);
    assert_eq!(w.compose_final_reply("Other!", &failed, WitnessStrictness::BlockWithRetry), block);
    assert_eq!(w.compose_final_reply("Done!", &failed, WitnessStrictness::Observe), "Done!");
    assert_eq!(
        w.compose_final_reply("Done!", &failed, WitnessStrictness::Warn),
        "Done!\n\n---\n⚠ Witness: 1/2 predicates passed. 1/2 pass, 1 fail, 0 inconclusive"
    );
    let unsure = verdict(VerdictOutcome::Inconclusive, vec![result(VerdictOutcome::Inconclusive, false, "?")]);
    assert_eq!(
        w.compose_final_reply("Done!", &unsure, WitnessStrictness::Block),
        "Done!\n\n---\n⚠ Witness: verdict inconclusive. 0/1 pass, 0 fail, 1 inconclusive"
    );
    let passed = verdict(VerdictOutcome::Pass, vec![result(VerdictOutcome::Pass, false, "ok")]);
    assert_eq!(w.compose_final_reply("Done!", &passed, WitnessStrictness::Block), "Done!");
    assert_eq!(passed.pass_count(), 1);
    assert_eq!(passed.total_count(), 1);
    assert_eq!(failed.fail_count(), 1);
}

#[test]
fn strictness_resolution() {
    let auto = WitnessConfig { override_strictness: OverrideStrictness::Auto };
    assert_eq!(resolve_strictness(&auto, true, true), WitnessStrictness::Block);
    assert_eq!(resolve_strictness(&auto, false, true), WitnessStrictness::Warn);
    assert_eq!(resolve_strictness(&auto, false, false), WitnessStrictness::Observe);
    let warn = WitnessConfig { override_strictness: OverrideStrictness::Warn };
    assert_eq!(resolve_strictness(&warn, true, false), WitnessStrictness::Warn);
}

#[test]
fn verdict_assembly_dispatches_by_tier() {
    let preds = vec![
        Predicate::FileExists { path: PathBuf::from("/tmp/a") },
        Predicate::AspectVerifier { rubric: "clear?".into(), evidence_refs: vec![], advisory: true },
        Predicate::FileExists { path: PathBuf::from("/tmp/b") },
        Predicate::AdversarialJudge { rubric: "honest?".into(), evidence_refs: vec![], advisory: false },
    ];
    let checks = vec![
        PredicateCheckResult { outcome: VerdictOutcome::Pass, detail: "a found".into(), latency_ms: 3 },
        PredicateCheckResult { outcome: VerdictOutcome::Fail, detail: "b missing".into(), latency_ms: 4 },
    ];
    let v = assemble_verdict("st-9".into(), preds, &checks, 12);
    assert_eq!(v.outcome, VerdictOutcome::Fail);
    assert_eq!(v.per_predicate.len(), 4);
    assert_eq!(v.per_predicate[2].detail, "b missing");
    assert_eq!(v.per_predicate[1].outcome, VerdictOutcome::Inconclusive);
    assert!(v.per_predicate[1].advisory);
    assert_eq!(v.per_predicate[3].detail, "Tier 2 not implemented in Phase 1 — predicate advisory");
    // A binding predicate that cannot be checked yet fails.
    assert_eq!(v.per_predicate[3].outcome, VerdictOutcome::Fail);
    assert!(!v.per_predicate[3].advisory);
    assert_eq!(v.tier_usage.tier0_calls, 2);
    assert_eq!(v.tier_usage.tier1_calls, 1);
    assert_eq!(v.tier_usage.tier2_calls, 1);
    assert_eq!(v.tier_usage.tier0_latency_ms, 7);
    assert_eq!(v.reason, "1/4 pass, 2 fail, 0 inconclusive");
    assert_eq!(v.subtask_id, "st-9");
}

#[test]
fn aggregate_ignores_order_and_tallies_add_up() {
    let a = vec![
        result(VerdictOutcome::Inconclusive, false, ""),
        result(VerdictOutcome::Pass, false, ""),
        result(VerdictOutcome::Fail, true, ""),
    ];
    let b = vec![
        result(VerdictOutcome::Fail, true, ""),
        result(VerdictOutcome::Inconclusive, false, ""),
        result(VerdictOutcome::Pass, false, ""),
    ];
    assert_eq!(aggregate_outcome(&a), aggregate_outcome(&b));
    let v = verdict(aggregate_outcome(&a), a);
    let inconclusive = v.per_predicate.iter().filter(|r| r.outcome == VerdictOutcome::Inconclusive).count();
    assert_eq!(v.pass_count() + v.fail_count() + inconclusive, v.total_count());
}

/// The verdict on one "file exists" postcondition whose tier-0 check
/// reported `outcome`.
fn single_file_verdict(outcome: VerdictOutcome, detail: &str) -> Verdict {
    let preds = vec![Predicate::FileExists { path: PathBuf::from("/tmp/work/missing") }];
    let checks = vec![PredicateCheckResult { outcome, detail: detail.into(), latency_ms: 1 }];
    assemble_verdict("st-1".into(), preds, &checks, 1)
}

#[test]
fn verify_passing_oath_yields_pass_verdict() {
    let verdict = single_file_verdict(VerdictOutcome::Pass, "file exists");
    assert_eq!(verdict.outcome, VerdictOutcome::Pass);
    assert_eq!(verdict.pass_count(), 1);
}

#[test]
fn verify_failing_oath_yields_fail_verdict() {
    let verdict = single_file_verdict(VerdictOutcome::Fail, "file does not exist");
    assert_eq!(verdict.outcome, VerdictOutcome::Fail);
    assert_eq!(verdict.fail_count(), 1);
}

#[test]
fn compose_final_reply_block_rewrites_on_fail() {
    let witness = Witness::new(Arc::new(()), PathBuf::from("/tmp/work"));
    let verdict = single_file_verdict(VerdictOutcome::Fail, "file does not exist");
    let final_reply = witness.compose_final_reply("Done!", &verdict, WitnessStrictness::Block);
    assert!(final_reply.contains("Partial completion"));
    assert!(final_reply.contains("Could not verify"));
    assert!(!final_reply.contains("Done!"));
}

#[test]
fn compose_final_reply_observe_unchanged() {
    let witness = Witness::new(Arc::new(()), PathBuf::from("/tmp/work"));
    let verdict = single_file_verdict(VerdictOutcome::Fail, "file does not exist");
    let final_reply = witness.compose_final_reply("Done!", &verdict, WitnessStrictness::Observe);
    assert_eq!(final_reply, "Done!");
}

#[test]
fn compose_final_reply_warn_appends_note() {
    let witness = Witness::new(Arc::new(()), PathBuf::from("/tmp/work"));
    let verdict = single_file_verdict(VerdictOutcome::Fail, "file does not exist");
    let final_reply = witness.compose_final_reply("Done!", &verdict, WitnessStrictness::Warn);
    assert!(final_reply.starts_with("Done!"));
    assert!(final_reply.contains("Witness:"));
}

#[test]
fn verify_unsealed_oath_errors() {
    let r = check_sealed(false, "st-1");
    assert!(matches!(r, Err(WitnessError::NoSealedOath(ref id)) if id == "st-1"));
    assert!(check_sealed(true, "st-1").is_ok());
}

#[test]
fn unchecked_tiers_fail_unless_advisory() {
    let preds = vec![
        Predicate::AspectVerifier { rubric: "clear?".into(), evidence_refs: vec![], advisory: false },
        Predicate::AdversarialJudge { rubric: "honest?".into(), evidence_refs: vec![], advisory: true },
    ];
    let v = assemble_verdict("st-2".into(), preds, &vec![], 0);
    assert_eq!(v.per_predicate[0].outcome, VerdictOutcome::Fail);
    assert_eq!(v.per_predicate[1].outcome, VerdictOutcome::Inconclusive);
    assert_eq!(v.outcome, VerdictOutcome::Fail);
}
