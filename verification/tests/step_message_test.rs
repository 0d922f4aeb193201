use ai_surfer::agent_output::{AgentBrain, AgentOutput};
use ai_surfer::history::{ActionResult, StepMetadata, StepRecord, Usage};
use ai_surfer::ids::StepId;
use ai_surfer::llm::{ChatMessage, ContentPart};
use ai_surfer::step_message::render_step_message;

fn step(results: Vec<ActionResult>) -> StepRecord {
    StepRecord {
        step: StepId(7),
        started_at: 0,
        url: Some("https://example.com/login".to_string()),
        output: AgentOutput {
            current_state: AgentBrain {
                evaluation_previous_goal: String::new(),
                memory: String::new(),
                next_goal: String::new(),
            },
            action: vec![],
            plan: None,
            current_plan_item: None,
        },
        results,
        metadata: StepMetadata {
            duration_ms: 0,
            step_interval_ms: None,
            usage: Usage::default(),
            model: None,
            fallback_used: false,
        },
        summary: None,
        screenshot: None,
    }
}

#[test]
fn empty_results_yields_no_message() {
    assert!(render_step_message(&step(vec![])).is_none());
}

#[test]
fn text_only_result_emits_text_part_only() {
    let r = ActionResult::ok("clicked login button".to_string());
    let msg = render_step_message(&step(vec![r])).expect("msg");
    let ChatMessage::User(u) = msg else {
        panic!("expected user");
    };
    assert_eq!(u.content.len(), 1);
    match &u.content[0] {
        ContentPart::Text { text } => {
            assert!(text.contains("Step 7 result:"));
            assert!(text.contains("url: https://example.com/login"));
            assert!(text.contains("clicked login button"));
        }
        other => panic!("expected text part, got {other:?}"),
    }
}

#[test]
fn screenshot_result_emits_text_plus_image_part() {
    let r = ActionResult::ok("captured screenshot".to_string()).with_image("AAAA".to_string());
    let msg = render_step_message(&step(vec![r])).expect("msg");
    let ChatMessage::User(u) = msg else {
        panic!("expected user");
    };
    assert_eq!(u.content.len(), 2);
    assert!(matches!(&u.content[0], ContentPart::Text { .. }));
    match &u.content[1] {
        ContentPart::ImageBase64 { media_type, data } => {
            assert_eq!(media_type, "image/png");
            assert_eq!(data, "AAAA");
        }
        other => panic!("expected image part, got {other:?}"),
    }
}

#[test]
fn multiple_images_across_results_all_attached() {
    let r1 = ActionResult::ok("step a".to_string()).with_image("AAAA".to_string());
    let r2 = ActionResult::ok("step b".to_string()).with_image("BBBB".to_string()).with_image("CCCC".to_string());
    let msg = render_step_message(&step(vec![r1, r2])).expect("msg");
    let ChatMessage::User(u) = msg else {
        panic!("expected user");
    };
    let images: Vec<&String> = u
        .content
        .iter()
        .filter_map(|p| match p {
            ContentPart::ImageBase64 { data, .. } => Some(data),
            _ => None,
        })
        .collect();
    assert_eq!(images, vec!["AAAA", "BBBB", "CCCC"]);
}

#[test]
fn error_result_emits_error_in_text() {
    let r = ActionResult::err("element not found".to_string());
    let msg = render_step_message(&step(vec![r])).expect("msg");
    let ChatMessage::User(u) = msg else {
        panic!("expected user");
    };
    match &u.content[0] {
        ContentPart::Text { text } => assert!(text.contains("error: element not found")),
        _ => panic!("expected text"),
    }
}

#[test]
fn report_text_is_exact_and_cuts_long_content() {
    let long = "y".repeat(500);
    let rs = vec![ActionResult::done("ok".to_string()), ActionResult::ok(long), ActionResult::err("e".repeat(300))];
    let mut s = step(rs);
    s.url = None;
    let msg = render_step_message(&s).expect("msg");
    let ChatMessage::User(u) = msg else {
        panic!("expected user");
    };
    let ContentPart::Text { text } = &u.content[0] else {
        panic!("expected text");
    };
    let expected = format!(
        "Step 7 result:\naction results:\n  [0] done ok\n  [1] {}\u{2026}\n  [2] error: {}\u{2026}\n",
        "y".repeat(480),
        "e".repeat(240)
    );
    assert_eq!(text, &expected);
}
