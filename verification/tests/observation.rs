use temm1e::observation::{analyze_tree, select_tier, truncate_safe, ObservationTier, TreeMetadata};

// ── analyze_tree tests ───────────────────────────────────────────

#[test]
fn analyze_empty_tree() {
    let meta = analyze_tree("");
    assert_eq!(meta.total_interactive, 0);
    assert_eq!(meta.unlabeled_interactive, 0);
    assert!(!meta.has_table);
    assert!(!meta.has_form);
    assert!(!meta.has_images_with_semantic_meaning);
}

#[test]
fn analyze_tree_counts_interactive_elements() {
    let tree = r#"[1] button "Submit"
[2] link "Home"
[3] textbox "Email"
[4] heading "Welcome""#;
    let meta = analyze_tree(tree);
    assert_eq!(meta.total_interactive, 3);
    assert_eq!(meta.unlabeled_interactive, 0);
}

#[test]
fn analyze_tree_counts_unlabeled_interactive() {
    let tree = r#"[1] button "Submit"
[2] link
[3] textbox
[4] button """#;
    let meta = analyze_tree(tree);
    assert_eq!(meta.total_interactive, 4);
    // [2] link has no quotes, [3] textbox has no quotes, [4] button has ""
    assert_eq!(meta.unlabeled_interactive, 3);
}

#[test]
fn analyze_tree_detects_table() {
    let tree = "[1] table \"Data\"\n  [2] row\n    [3] cell \"A\"";
    let meta = analyze_tree(tree);
    assert!(meta.has_table);
}

#[test]
fn analyze_tree_detects_form() {
    let tree = "[1] form \"Login\"\n  [2] textbox \"Username\"";
    let meta = analyze_tree(tree);
    assert!(meta.has_form);
    assert_eq!(meta.total_interactive, 1); // textbox
}

#[test]
fn analyze_tree_detects_images() {
    let tree = "[1] img \"Logo\"\n[2] button \"Submit\"";
    let meta = analyze_tree(tree);
    assert!(meta.has_images_with_semantic_meaning);
}

#[test]
fn analyze_tree_no_false_positives() {
    let tree = "[1] heading \"Welcome\"\n[2] navigation \"Main\"";
    let meta = analyze_tree(tree);
    assert_eq!(meta.total_interactive, 0);
    assert!(!meta.has_table);
    assert!(!meta.has_form);
    assert!(!meta.has_images_with_semantic_meaning);
}

// ── select_tier tests ────────────────────────────────────────────

#[test]
fn tier1_for_simple_tree() {
    let meta = TreeMetadata {
        total_interactive: 5,
        unlabeled_interactive: 0,
        has_table: false,
        has_form: false,
        has_images_with_semantic_meaning: false,
        has_qr_code: false,
    };
    let tier = select_tier(&meta, None, false);
    assert_eq!(tier, ObservationTier::Tree);
}

#[test]
fn tier1_when_all_labeled() {
    let meta = TreeMetadata {
        total_interactive: 10,
        unlabeled_interactive: 1, // 10% < 33%
        has_table: false,
        has_form: false,
        has_images_with_semantic_meaning: false,
        has_qr_code: false,
    };
    let tier = select_tier(&meta, None, false);
    assert_eq!(tier, ObservationTier::Tree);
}

#[test]
fn tier2_for_table() {
    let meta = TreeMetadata {
        total_interactive: 2,
        unlabeled_interactive: 0,
        has_table: true,
        has_form: false,
        has_images_with_semantic_meaning: false,
        has_qr_code: false,
    };
    let tier = select_tier(&meta, None, false);
    assert_eq!(
        tier,
        ObservationTier::TreeWithDom {
            selector: "table".into()
        }
    );
}

#[test]
fn tier2_for_form() {
    let meta = TreeMetadata {
        total_interactive: 3,
        unlabeled_interactive: 0,
        has_table: false,
        has_form: true,
        has_images_with_semantic_meaning: false,
        has_qr_code: false,
    };
    let tier = select_tier(&meta, None, false);
    assert_eq!(
        tier,
        ObservationTier::TreeWithDom {
            selector: "form".into()
        }
    );
}

#[test]
fn tier2_for_many_unlabeled() {
    let meta = TreeMetadata {
        total_interactive: 6,
        unlabeled_interactive: 3, // 50% > 33%
        has_table: false,
        has_form: false,
        has_images_with_semantic_meaning: false,
        has_qr_code: false,
    };
    let tier = select_tier(&meta, None, false);
    assert_eq!(
        tier,
        ObservationTier::TreeWithDom {
            selector: "body".into()
        }
    );
}

#[test]
fn tier2_table_takes_priority_over_form() {
    let meta = TreeMetadata {
        total_interactive: 2,
        unlabeled_interactive: 0,
        has_table: true,
        has_form: true,
        has_images_with_semantic_meaning: false,
        has_qr_code: false,
    };
    let tier = select_tier(&meta, None, false);
    assert_eq!(
        tier,
        ObservationTier::TreeWithDom {
            selector: "table".into()
        }
    );
}

#[test]
fn tier3_on_previous_action_failure() {
    let meta = TreeMetadata::default();
    let tier = select_tier(&meta, None, true);
    assert_eq!(tier, ObservationTier::TreeWithScreenshot { selector: None });
}

#[test]
fn tier3_on_captcha_hint() {
    let meta = TreeMetadata::default();
    let tier = select_tier(&meta, Some("solve the captcha"), false);
    assert_eq!(tier, ObservationTier::TreeWithScreenshot { selector: None });
}

#[test]
fn tier3_on_image_hint() {
    let meta = TreeMetadata::default();
    let tier = select_tier(&meta, Some("check the image content"), false);
    assert_eq!(tier, ObservationTier::TreeWithScreenshot { selector: None });
}

#[test]
fn tier3_on_visual_hint() {
    let meta = TreeMetadata::default();
    let tier = select_tier(&meta, Some("verify the visual layout"), false);
    assert_eq!(tier, ObservationTier::TreeWithScreenshot { selector: None });
}

#[test]
fn tier3_on_layout_hint() {
    let meta = TreeMetadata::default();
    let tier = select_tier(&meta, Some("check layout"), false);
    assert_eq!(tier, ObservationTier::TreeWithScreenshot { selector: None });
}

#[test]
fn tier3_hint_case_insensitive() {
    let meta = TreeMetadata::default();
    let tier = select_tier(&meta, Some("CAPTCHA verification"), false);
    assert_eq!(tier, ObservationTier::TreeWithScreenshot { selector: None });
}

#[test]
fn tier3_failure_overrides_simple_tree() {
    // Even with a simple tree, failure triggers Tier 3
    let meta = TreeMetadata {
        total_interactive: 5,
        unlabeled_interactive: 0,
        has_table: false,
        has_form: false,
        has_images_with_semantic_meaning: false,
        has_qr_code: false,
    };
    let tier = select_tier(&meta, None, true);
    assert_eq!(tier, ObservationTier::TreeWithScreenshot { selector: None });
}

#[test]
fn tier1_with_irrelevant_hint() {
    let meta = TreeMetadata {
        total_interactive: 3,
        unlabeled_interactive: 0,
        has_table: false,
        has_form: false,
        has_images_with_semantic_meaning: false,
        has_qr_code: false,
    };
    let tier = select_tier(&meta, Some("click the submit button"), false);
    assert_eq!(tier, ObservationTier::Tree);
}

#[test]
fn tier1_zero_interactive_no_flags() {
    let meta = TreeMetadata::default();
    let tier = select_tier(&meta, None, false);
    assert_eq!(tier, ObservationTier::Tree);
}

#[test]
fn unlabeled_threshold_boundary() {
    // Exactly at 33% boundary: 3/9 = 33.3% > 9/3 = 3, so 3 > 3 is false
    let meta = TreeMetadata {
        total_interactive: 9,
        unlabeled_interactive: 3, // 3 > 9/3 = 3 -> false (not strictly greater)
        has_table: false,
        has_form: false,
        has_images_with_semantic_meaning: false,
        has_qr_code: false,
    };
    let tier = select_tier(&meta, None, false);
    assert_eq!(tier, ObservationTier::Tree);

    // Just above: 4/9 > 3 -> true
    let meta2 = TreeMetadata {
        total_interactive: 9,
        unlabeled_interactive: 4,
        has_table: false,
        has_form: false,
        has_images_with_semantic_meaning: false,
        has_qr_code: false,
    };
    let tier2 = select_tier(&meta2, None, false);
    assert_eq!(
        tier2,
        ObservationTier::TreeWithDom {
            selector: "body".into()
        }
    );
}

// ── truncate_safe tests ──────────────────────────────────────────

#[test]
fn truncate_safe_short_string() {
    let s = "hello";
    assert_eq!(truncate_safe(s, 100), "hello");
}

#[test]
fn truncate_safe_exact_length() {
    let s = "hello";
    assert_eq!(truncate_safe(s, 5), "hello");
}

#[test]
fn truncate_safe_truncates_ascii() {
    let s = "hello world";
    assert_eq!(truncate_safe(s, 5), "hello");
}

#[test]
fn truncate_safe_respects_utf8_boundary() {
    // Vietnamese char with multi-byte encoding
    let s = "hello\u{1EBD}world"; // e with tilde = 3 bytes
    let result = truncate_safe(s, 6);
    // Should not panic, should stop before the multi-byte char if it doesn't fit
    assert!(result.len() <= 6);
    assert!(result.is_char_boundary(result.len()));
}

#[test]
fn truncate_safe_empty_string() {
    assert_eq!(truncate_safe("", 10), "");
}

#[test]
fn truncate_safe_zero_limit() {
    assert_eq!(truncate_safe("hello", 0), "");
}

// ── QR code detection tier escalation tests ─────────────────────

#[test]
fn tier3_on_qr_code_detected() {
    let meta = TreeMetadata {
        total_interactive: 3,
        unlabeled_interactive: 0,
        has_table: false,
        has_form: false,
        has_images_with_semantic_meaning: false,
        has_qr_code: true,
    };
    let tier = select_tier(&meta, None, false);
    assert_eq!(tier, ObservationTier::TreeWithScreenshot { selector: None });
}

#[test]
fn tier3_qr_overrides_form() {
    // Even with a form, QR detection should escalate to Tier 3
    let meta = TreeMetadata {
        total_interactive: 5,
        unlabeled_interactive: 0,
        has_table: false,
        has_form: true,
        has_images_with_semantic_meaning: false,
        has_qr_code: true,
    };
    let tier = select_tier(&meta, None, false);
    assert_eq!(tier, ObservationTier::TreeWithScreenshot { selector: None });
}

#[test]
fn tier3_qr_overrides_table() {
    // Even with a table, QR detection should escalate to Tier 3
    let meta = TreeMetadata {
        total_interactive: 2,
        unlabeled_interactive: 0,
        has_table: true,
        has_form: false,
        has_images_with_semantic_meaning: false,
        has_qr_code: true,
    };
    let tier = select_tier(&meta, None, false);
    assert_eq!(tier, ObservationTier::TreeWithScreenshot { selector: None });
}

#[test]
fn no_qr_does_not_escalate() {
    // Explicitly false should not affect tier selection
    let meta = TreeMetadata {
        total_interactive: 3,
        unlabeled_interactive: 0,
        has_table: false,
        has_form: false,
        has_images_with_semantic_meaning: false,
        has_qr_code: false,
    };
    let tier = select_tier(&meta, None, false);
    assert_eq!(tier, ObservationTier::Tree);
}

#[test]
fn qr_default_is_false() {
    let meta = TreeMetadata::default();
    assert!(!meta.has_qr_code);
}

#[test]
fn tier3_failure_takes_priority_over_qr() {
    // Both failure and QR are true — both lead to Tier 3, failure checked first
    let meta = TreeMetadata {
        total_interactive: 3,
        unlabeled_interactive: 0,
        has_table: false,
        has_form: false,
        has_images_with_semantic_meaning: false,
        has_qr_code: true,
    };
    let tier = select_tier(&meta, None, true);
    assert_eq!(tier, ObservationTier::TreeWithScreenshot { selector: None });
}

// ── further cases ───────────────────────────────────────────────

#[test]
fn analyze_tree_crlf_and_trailing_newline() {
    let meta = analyze_tree("[1] button \"Go\"\r\n[2] link\r\n");
    assert_eq!(meta.total_interactive, 2);
    assert_eq!(meta.unlabeled_interactive, 1);
    assert!(!meta.has_qr_code);
}

#[test]
fn analyze_tree_roles_inside_other_words() {
    // Roles are matched as substrings of the line, as in the tree format.
    let meta = analyze_tree("[1] platform \"x\"\n[2] buttonbar \"y\"\n[3] timetable");
    assert!(meta.has_form);
    assert!(meta.has_table);
    assert_eq!(meta.total_interactive, 1);
    assert_eq!(meta.unlabeled_interactive, 0);
}

#[test]
fn analyze_tree_non_ascii_names() {
    let meta = analyze_tree("[1] button \"Envoyer ✓\"\n[2] img \"logo\"");
    assert_eq!(meta.total_interactive, 1);
    assert_eq!(meta.unlabeled_interactive, 0);
    assert!(meta.has_images_with_semantic_meaning);
}

#[test]
fn tier3_on_non_ascii_uppercase_hint() {
    // Lowercasing is Unicode-aware: "IMAGE" in full-width-free capitals with
    // an accented neighbour still matches.
    let tier = select_tier(&TreeMetadata::default(), Some("ÉTUDIER L'IMAGE"), false);
    assert_eq!(tier, ObservationTier::TreeWithScreenshot { selector: None });
}

#[test]
fn tier2_body_when_all_unlabeled_even_with_form() {
    let meta = TreeMetadata {
        total_interactive: 2,
        unlabeled_interactive: 1,
        has_table: false,
        has_form: true,
        has_images_with_semantic_meaning: false,
        has_qr_code: false,
    };
    assert_eq!(
        select_tier(&meta, None, false),
        ObservationTier::TreeWithDom { selector: "body".into() }
    );
}

#[test]
fn truncate_safe_multibyte_cut_exactly_before() {
    // "é" is two bytes at offsets 1..3; a limit of 2 falls inside it.
    assert_eq!(truncate_safe("aéb", 2), "a");
    assert_eq!(truncate_safe("aéb", 3), "aé");
}

#[test]
fn truncate_safe_twice_is_once() {
    let s = "hello\u{1EBD}world";
    let once = truncate_safe(s, 7);
    assert_eq!(truncate_safe(once, 7), once);
    assert_eq!(once, "hello");
}
