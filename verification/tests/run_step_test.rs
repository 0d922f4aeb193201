use ai_surfer::error::{should_switch_to_fallback, AppError};
use ai_surfer::history::ActionResult;
use ai_surfer::ids::{ActionName, StepId};
use ai_surfer::llm::{ChatMessage, ChatResponse};
use ai_surfer::loop_detector::ActionLoopDetector;
use ai_surfer::run_step::{prepare_step_messages, route_primary_result, ActionBatch, LlmRoute, StepCommand, StepFlow};

fn response() -> ChatResponse {
    ChatResponse { content: Some("x".to_string()), tool_calls: vec![], model: "m".to_string() }
}

fn batch(n: usize) -> ActionBatch {
    let mut f = StepFlow::begin(false);
    match f.model_answered(Ok(response())) {
        StepCommand::Decide(r) => assert_eq!(r.content.as_deref(), Some("x")),
        other => panic!("unexpected {other:?}"),
    }
    f.decided(n)
}

#[test]
fn model_errors_fall_back_once_then_fail_the_step() {
    let mut f = StepFlow::begin(true);
    assert!(matches!(f.model_answered(Err(AppError::LlmRateLimited("r".into()))), StepCommand::AskFallback));
    match f.model_answered(Err(AppError::LlmRateLimited("again".into()))) {
        StepCommand::Fail(AppError::LlmRateLimited(m)) => assert_eq!(m, "again"),
        other => panic!("unexpected {other:?}"),
    }
    let mut f = StepFlow::begin(true);
    assert!(matches!(f.model_answered(Err(AppError::NotFound("n".into()))), StepCommand::Fail(AppError::NotFound(_))));
    let mut f = StepFlow::begin(false);
    assert!(matches!(f.model_answered(Err(AppError::CdpTimeout("t".into()))), StepCommand::Fail(AppError::CdpTimeout(_))));
    let mut f = StepFlow::begin(true);
    assert!(matches!(f.model_answered(Err(AppError::CdpTimeout("t".into()))), StepCommand::AskFallback));
    assert!(matches!(f.model_answered(Ok(response())), StepCommand::Decide(_)));
}

#[test]
fn fallback_only_for_transient_errors() {
    assert!(should_switch_to_fallback(&AppError::LlmRateLimited("r".into())));
    assert!(should_switch_to_fallback(&AppError::LlmAuthExpired("r".into())));
    assert!(should_switch_to_fallback(&AppError::LlmProviderError("r".into())));
    assert!(should_switch_to_fallback(&AppError::CdpTimeout("r".into())));
    assert!(should_switch_to_fallback(&AppError::BrowserDisconnected("r".into())));
    assert!(!should_switch_to_fallback(&AppError::ActionFailed("r".into())));
    assert!(!should_switch_to_fallback(&AppError::NotFound("r".into())));
    assert!(!should_switch_to_fallback(&AppError::Unauthorized("r".into())));
    assert!(!should_switch_to_fallback(&AppError::ValidationError("r".into())));
    assert!(!should_switch_to_fallback(&AppError::InternalError("r".into())));
}

#[test]
fn routing_of_the_primary_answer() {
    assert!(matches!(route_primary_result(Ok(response()), false), LlmRoute::Use(_)));
    assert!(matches!(route_primary_result(Err(AppError::LlmRateLimited("x".into())), true), LlmRoute::TryFallback));
    assert!(matches!(route_primary_result(Err(AppError::LlmRateLimited("x".into())), false), LlmRoute::Fail(_)));
    assert!(matches!(route_primary_result(Err(AppError::NotFound("x".into())), true), LlmRoute::Fail(AppError::NotFound(_))));
}

#[test]
fn batch_stops_at_unknown_action() {
    let mut d = ActionLoopDetector::new();
    let mut b = batch(3);
    assert_eq!(b.next_action(), Some(0));
    b.record_outcome(false, Ok(ActionResult::ok("a".to_string())), &mut d, "h".to_string());
    assert_eq!(b.next_action(), Some(1));
    b.record_unknown(&ActionName("nope".to_string()), &mut d, "h".to_string());
    assert_eq!(b.next_action(), None);
    let rs = b.into_results();
    assert_eq!(rs.len(), 2);
    assert_eq!(rs[1].error.as_deref(), Some("unknown action: nope"));
}

#[test]
fn batch_stops_on_error_done_or_terminating_action() {
    let mut d = ActionLoopDetector::new();
    let mut b = batch(5);
    b.record_outcome(false, Err(AppError::ActionFailed("boom".to_string())), &mut d, "h".to_string());
    assert_eq!(b.next_action(), None);
    assert_eq!(b.into_results()[0].error.as_deref(), Some("boom"));

    let mut b = batch(5);
    b.record_outcome(false, Ok(ActionResult::done("fin".to_string())), &mut d, "h".to_string());
    assert_eq!(b.next_action(), None);

    let mut b = batch(5);
    b.record_outcome(true, Ok(ActionResult::ok("moved".to_string())), &mut d, "h".to_string());
    assert_eq!(b.next_action(), None);

    let mut b = batch(2);
    b.record_outcome(false, Ok(ActionResult::ok("1".to_string())), &mut d, "h".to_string());
    b.record_outcome(false, Ok(ActionResult::ok("2".to_string())), &mut d, "h".to_string());
    assert_eq!(b.next_action(), None);
    assert_eq!(b.into_results().len(), 2);
}

#[test]
fn step_messages_get_nudges_in_order() {
    let mut d = ActionLoopDetector::new();
    for _ in 0..5 {
        d.record_action("same".to_string());
    }
    let prompt = vec![ChatMessage::user_text("go".to_string())];
    let page = ChatMessage::user_text("clickable_elements:\n  [1] a\n".to_string());
    let msgs = prepare_step_messages(prompt, &d, StepId(19), 20, Some(page));
    assert_eq!(msgs.len(), 4);
    assert!(matches!(&msgs[3], ChatMessage::User(_)));
    match (&msgs[1], &msgs[2]) {
        (ChatMessage::System(a), ChatMessage::System(b)) => {
            assert!(a.content.contains("repeated"));
            assert!(b.content.starts_with("You are at 95%"));
        }
        _ => panic!("expected two system messages"),
    }
    let calm = prepare_step_messages(vec![], &ActionLoopDetector::new(), StepId(0), 20, None);
    assert!(calm.is_empty());
}

#[test]
fn every_attempted_action_is_recorded_for_loop_detection() {
    let mut d = ActionLoopDetector::new();
    let mut b = batch(6);
    for _ in 0..4 {
        b.record_outcome(false, Ok(ActionResult::ok("x".to_string())), &mut d, "same".to_string());
    }
    assert!(!d.action_loop_detected());
    b.record_unknown(&ActionName("nope".to_string()), &mut d, "same".to_string());
    assert!(d.action_loop_detected());
    assert!(!d.page_stagnation_detected());
}
