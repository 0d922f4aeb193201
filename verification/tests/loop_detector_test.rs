use sha2::Digest;
use ai_surfer::detect_loop::{build_budget_warning, build_loop_nudge};
use ai_surfer::llm::ChatMessage;
use ai_surfer::loop_detector::{ActionLoopDetector, PageFingerprint};

#[test]
fn no_nudge_when_actions_diverse() {
    let mut d = ActionLoopDetector::new();
    for i in 0..5 {
        d.record_action(format!("hash-{i}"));
    }
    assert!(build_loop_nudge(&d).is_none());
}

#[test]
fn nudge_triggers_at_five_repetitions() {
    let mut d = ActionLoopDetector::new();
    for _ in 0..5 {
        d.record_action("same".to_string());
    }
    let n = build_loop_nudge(&d).expect("nudge");
    match n {
        ChatMessage::System(m) => assert!(m.content.contains("repeated")),
        _ => panic!("expected system message"),
    }
}

#[test]
fn budget_warning_at_95_percent() {
    let n = build_budget_warning(95, 100).expect("warning");
    match n {
        ChatMessage::System(m) => {
            assert!(m.content.contains("95%"));
            assert!(m.content.contains("Wrap up"));
        }
        _ => panic!("expected system"),
    }
}

#[test]
fn no_budget_warning_under_95_percent() {
    assert!(build_budget_warning(70, 100).is_none());
    assert!(build_budget_warning(90, 100).is_none());
    assert!(build_budget_warning(94, 100).is_none());
}

#[test]
fn four_repetitions_are_not_a_loop() {
    let mut d = ActionLoopDetector::new();
    for _ in 0..4 {
        d.record_action("same".to_string());
    }
    assert!(!d.action_loop_detected());
    d.record_action("same".to_string());
    assert!(d.action_loop_detected());
    d.record_action("other".to_string());
    assert!(!d.action_loop_detected());
}

#[test]
fn history_window_keeps_the_latest_thirty_two() {
    let mut d = ActionLoopDetector::new();
    for i in 0..40 {
        d.record_action(format!("h{i}"));
    }
    d.action_threshold = 32;
    assert!(!d.action_loop_detected());
    for _ in 0..32 {
        d.record_action("x".to_string());
    }
    assert!(d.action_loop_detected());
    d.action_threshold = 33;
    assert!(!d.action_loop_detected());
}

#[test]
fn fingerprint_is_the_sha256_of_the_fields() {
    let f = PageFingerprint::new("u", "t", 1, 2);
    assert_eq!(f.as_str().len(), 64);
    assert!(f.as_str().chars().all(|c| c.is_ascii_hexdigit() && !c.is_ascii_uppercase()));
    assert_eq!(f, PageFingerprint::new("u", "t", 1, 2));
    assert_ne!(f, PageFingerprint::new("u", "t", 1, 3));
    assert_ne!(f, PageFingerprint::new("u", "T", 1, 2));
}

#[test]
fn fingerprint_matches_a_known_digest() {
    // SHA-256 of b"u|t|\x01\x00\x00\x00|\x02\x00\x00\x00"
    let f = PageFingerprint::new("u", "t", 1, 2);
    let mut bytes: Vec<u8> = b"u|t|".to_vec();
    bytes.extend_from_slice(&1u32.to_le_bytes());
    bytes.push(b'|');
    bytes.extend_from_slice(&2u32.to_le_bytes());
    let expected: String = sha2::Sha256::digest(&bytes).iter().map(|b| format!("{:02x}", b)).collect();
    assert_eq!(f.as_str(), expected);
}

#[test]
fn default_detector_has_zero_thresholds() {
    let d = ActionLoopDetector::default();
    assert_eq!(d.action_threshold, 0);
    assert_eq!(d.stagnation_threshold, 0);
}
