use temm1e::eigentune::{merge_category_counts, EigenTuneConfig, EigenTuneEngine};

#[test]
fn engine_enabled_flag() {
    let on = EigenTuneEngine::new(&EigenTuneConfig { enabled: true, sprt_max_samples: 500 });
    assert!(on.is_enabled());
    let off = EigenTuneEngine::new(&EigenTuneConfig { enabled: false, sprt_max_samples: 500 });
    assert!(!off.is_enabled());
}

#[test]
fn categories_merge_in_first_seen_order() {
    let tiers = vec![
        vec![("code".to_string(), 3i64), ("chat".to_string(), 1)],
        vec![("chat".to_string(), 4i64)],
        vec![("math".to_string(), 2i64), ("code".to_string(), 5)],
    ];
    let merged = merge_category_counts(tiers);
    assert_eq!(
        merged,
        vec![("code".to_string(), 8), ("chat".to_string(), 5), ("math".to_string(), 2)]
    );
    assert!(merge_category_counts(vec![vec![], vec![]]).is_empty());
}

use temm1e::eigentune::{format_status_text, TierLine, TierPhase};

#[test]
fn status_display_layout() {
    let tiers = vec![
        TierLine { tier: "simple".into(), state: "graduated".into(), phase: TierPhase::Graduated },
        TierLine { tier: "standard".into(), state: "shadowing".into(), phase: TierPhase::Shadowing },
        TierLine { tier: "complex-tier".into(), state: "collecting".into(), phase: TierPhase::Other },
    ];
    let text = format_status_text(12, -1, "0.50", &tiers);
    assert_eq!(
        text,
        "EIGEN-TUNE STATUS\n\nData: 12 pairs collected | -1 high-quality\nDiversity: J = 0.50\n\n● simple   graduated\n◐ standard shadowing\n○ complex-tier collecting\n"
    );
    assert!(format_status_text(0, 0, "0.00", &vec![]).contains("EIGEN-TUNE STATUS"));
}

use temm1e::eigentune::{serving_model, shadow_progress};

#[test]
fn tier_report_fields() {
    assert_eq!(shadow_progress(TierPhase::Shadowing, 17, 500), Some("17/500".to_string()));
    assert_eq!(shadow_progress(TierPhase::Graduated, 17, 500), None);
    assert_eq!(serving_model(true), Some("eigentune-model".to_string()));
    assert_eq!(serving_model(false), None);
}


#[test]
fn test_engine_creation() {
    let config = EigenTuneConfig { enabled: false, sprt_max_samples: 500 };
    let engine = EigenTuneEngine::new(&config);
    assert_eq!(engine.is_enabled(), config.enabled);
}

#[test]
fn test_format_status_output() {
    let tiers = vec![
        TierLine { tier: "simple".into(), state: "collecting".into(), phase: TierPhase::Other },
        TierLine { tier: "standard".into(), state: "collecting".into(), phase: TierPhase::Other },
        TierLine { tier: "complex".into(), state: "collecting".into(), phase: TierPhase::Other },
    ];
    let text = format_status_text(0, 0, "0.00", &tiers);
    assert!(text.contains("EIGEN-TUNE STATUS"));
}

use temm1e::eigentune::{route_decision, should_demote, status_error_text, RouteDecision};

#[test]
fn test_route_default_cloud() {
    assert_eq!(route_decision(Ok(RouteDecision::Cloud)), RouteDecision::Cloud);
    assert_eq!(route_decision(Err("store unavailable".to_string())), RouteDecision::Cloud);
    assert_eq!(route_decision(Ok(RouteDecision::Local("m".into()))), RouteDecision::Local("m".into()));
}

#[test]
fn status_error_display() {
    assert_eq!(status_error_text("db locked"), "Eigen-Tune: error: db locked");
}

#[test]
fn drift_alarm_demotes() {
    assert!(should_demote(Ok(true)));
    assert!(!should_demote(Ok(false)));
    assert!(!should_demote(Err("x".to_string())));
}
