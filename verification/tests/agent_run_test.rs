use ai_surfer::agent_output::{ActionInvocation, AgentBrain, AgentOutput};
use ai_surfer::agent_run::{AgentRun, DEFAULT_MAX_STEPS};
use ai_surfer::history::{ActionResult, StepMetadata, StepRecord, Usage};
use ai_surfer::ids::{ActionName, AgentId, StepId};
use ai_surfer::llm::ChatMessage;

fn record(step: u32, actions: usize, results: Vec<ActionResult>, duration_ms: u64) -> StepRecord {
    let action = (0..actions)
        .map(|_| ActionInvocation { name: ActionName("navigate".to_string()), parameters: serde_json::Value::Null })
        .collect();
    StepRecord {
        step: StepId(step),
        started_at: 0,
        url: None,
        output: AgentOutput {
            current_state: AgentBrain { evaluation_previous_goal: String::new(), memory: String::new(), next_goal: String::new() },
            action,
            plan: None,
            current_plan_item: None,
        },
        results,
        metadata: StepMetadata { duration_ms, step_interval_ms: None, usage: Usage::default(), model: None, fallback_used: false },
        summary: None,
        screenshot: None,
    }
}

#[test]
fn agent_stops_after_two_empty_steps() {
    let mut run = AgentRun::start(AgentId(1), "noop".to_string(), 10);
    let mut taken = 0;
    while let Some(id) = run.next_step() {
        if taken == 1 {
            assert!(matches!(run.empty_action_nudge(), Some(ChatMessage::System(_))));
        } else {
            assert!(run.empty_action_nudge().is_none());
        }
        run.record_step(record(id.0, 0, vec![], 5));
        taken += 1;
    }
    assert_eq!(taken, 2);
    let list = run.finish();
    assert_eq!(list.histories.len(), 1);
    assert_eq!(list.histories[0].steps.len(), 2);
    assert_eq!(list.histories[0].task, "noop");
}

#[test]
fn agent_stops_on_done_and_chains_intervals() {
    let mut run = AgentRun::start(AgentId(1), "open example.com".to_string(), 5);
    let id = run.next_step().expect("first");
    assert_eq!(id, StepId(0));
    run.record_step(record(0, 1, vec![ActionResult::ok("navigated".to_string())], 30));
    let id = run.next_step().expect("second");
    assert_eq!(id, StepId(1));
    run.record_step(record(1, 1, vec![ActionResult::done("Done.".to_string())], 40));
    assert!(run.next_step().is_none());
    let steps = run.steps();
    assert_eq!(steps.len(), 2);
    assert_eq!(steps[0].metadata.step_interval_ms, None);
    assert_eq!(steps[1].metadata.step_interval_ms, Some(30));
    let list = run.finish();
    assert_eq!(list.final_result(), Some("Done."));
}

#[test]
fn an_action_between_empty_steps_resets_the_streak() {
    let mut run = AgentRun::start(AgentId(2), "t".to_string(), 10);
    run.record_step(record(0, 0, vec![], 1));
    run.record_step(record(1, 1, vec![ActionResult::ok("x".to_string())], 1));
    assert!(run.empty_action_nudge().is_none());
    run.record_step(record(2, 0, vec![], 1));
    assert!(run.next_step().is_some());
    run.record_step(record(3, 0, vec![], 1));
    assert!(run.next_step().is_none());
}

#[test]
fn budget_caps_the_run() {
    let mut run = AgentRun::start(AgentId(3), "t".to_string(), 3);
    let mut n = 0;
    while let Some(id) = run.next_step() {
        run.record_step(record(id.0, 1, vec![ActionResult::ok("x".to_string())], 1));
        n += 1;
    }
    assert_eq!(n, 3);
    let zero = AgentRun::start(AgentId(3), "t".to_string(), 0);
    assert!(zero.next_step().is_none());
    assert_eq!(DEFAULT_MAX_STEPS, 25);
}
