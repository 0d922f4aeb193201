use ai_surfer::detect_loop::{build_budget_warning, build_empty_action_nudge, build_loop_nudge};
use ai_surfer::llm::ChatMessage;
use ai_surfer::loop_detector::{ActionLoopDetector, PageFingerprint};

#[test]
fn no_nudge_when_previous_step_had_an_action() {
    assert!(build_empty_action_nudge(false).is_none());
}

#[test]
fn nudge_after_empty_demands_action_or_done_not_found() {
    let text = match build_empty_action_nudge(true) {
        Some(ChatMessage::System(s)) => s.content,
        _ => String::new(),
    };
    assert!(!text.is_empty(), "an empty action must trigger a re-prompt");
    let lo = text.to_lowercase();
    assert!(lo.contains("action"), "demands an action");
    assert!(lo.contains("done"), "offers the done not-found escape");
    assert!(lo.contains("next_goal") || lo.contains("not found"), "addresses the next_goal stall");
}

#[test]
fn stagnant_page_alone_gives_the_page_note() {
    let mut d = ActionLoopDetector::new();
    d.record_action("a".to_string());
    for _ in 0..5 {
        d.record_page(PageFingerprint::new("https://example.com/", "T", 3, 10));
    }
    match build_loop_nudge(&d) {
        Some(ChatMessage::System(m)) => {
            assert!(m.content.contains("page state has not changed"));
            assert!(!m.content.contains("repeated"));
        }
        _ => panic!("expected a system nudge"),
    }
}

#[test]
fn both_conditions_join_with_a_blank_line() {
    let mut d = ActionLoopDetector::new();
    for _ in 0..5 {
        d.record_action("same".to_string());
        d.record_page(PageFingerprint::new("https://example.com/", "T", 3, 10));
    }
    match build_loop_nudge(&d) {
        Some(ChatMessage::System(m)) => {
            assert!(m.content.contains("repeated several times. Try a different element or strategy.\n\nHeads up: the page"));
        }
        _ => panic!("expected a system nudge"),
    }
}

#[test]
fn budget_warning_exact_text_and_zero_budget() {
    match build_budget_warning(99, 100) {
        Some(ChatMessage::System(m)) => assert_eq!(
            m.content,
            "You are at 99% of your step budget. Wrap up: call done if you have an answer, or pivot decisively."
        ),
        _ => panic!("expected system"),
    }
    assert!(build_budget_warning(5, 0).is_none());
    assert!(build_budget_warning(19, 20).is_some());
}
