use ai_surfer::agent_output::{ActionInvocation, AgentBrain, AgentOutput};
use ai_surfer::agent_run::AgentRun;
use ai_surfer::history::{ActionResult, AgentHistoryList, StepMetadata, StepRecord, Usage};
use ai_surfer::ids::{ActionName, AgentId};
use ai_surfer::llm::ChatResponse;
use ai_surfer::loop_detector::ActionLoopDetector;
use ai_surfer::parse_output::{fence_retry_text, parse_agent_output};
use ai_surfer::prompt::build_prompt;
use ai_surfer::registry::{ActionMetadata, ActionRegistry};
use ai_surfer::run_step::{prepare_step_messages, StepCommand, StepFlow};

const EMPTY: &str = r#"{"current_state":{"evaluation_previous_goal":"","memory":"","next_goal":""},"action":[]}"#;

fn text_field(v: &serde_json::Value, key: &str) -> String {
    v.get(key).and_then(|s| s.as_str()).unwrap_or("").to_string()
}

fn decode(text: &str) -> Option<AgentOutput> {
    let v: serde_json::Value = serde_json::from_str(text).ok()?;
    let state = v.get("current_state")?;
    let mut action = Vec::new();
    for a in v.get("action")?.as_array()? {
        action.push(ActionInvocation {
            name: ActionName(a.get("name")?.as_str()?.to_string()),
            parameters: a.get("parameters")?.clone(),
        });
    }
    Some(AgentOutput {
        current_state: AgentBrain {
            evaluation_previous_goal: text_field(state, "evaluation_previous_goal"),
            memory: text_field(state, "memory"),
            next_goal: text_field(state, "next_goal"),
        },
        action,
        plan: None,
        current_plan_item: None,
    })
}

fn registry() -> ActionRegistry {
    let mut r = ActionRegistry::new();
    for (name, ends) in [("navigate", false), ("done", true)] {
        r.register(ActionMetadata {
            name: ActionName(name.to_string()),
            description: name.to_string(),
            parameters_schema: "{}".to_string(),
            terminates_sequence: ends,
        })
        .expect("fresh name");
    }
    r
}

/// Runs the agent against scripted model answers; returns the history and
/// the URLs the navigate action was asked to open.
fn run_scripted(task: &str, answers: Vec<&str>, max_steps: u32) -> (AgentHistoryList, Vec<String>) {
    let registry = registry();
    let mut answers: Vec<String> = answers.into_iter().rev().map(String::from).collect();
    let mut navigations = Vec::new();
    let mut detector = ActionLoopDetector::new();
    let mut run = AgentRun::start(AgentId(7), task.to_string(), max_steps);
    while let Some(step) = run.next_step() {
        let decisions: Vec<Option<String>> = run.steps().iter().map(|_| None).collect();
        let mut prompt = build_prompt(task, run.steps(), &decisions, &registry);
        if let Some(nudge) = run.empty_action_nudge() {
            prompt.push(nudge);
        }
        let _messages = prepare_step_messages(prompt, &detector, step, max_steps, None);
        let content = answers.pop().unwrap_or_else(|| EMPTY.to_string());
        let reply = ChatResponse { content: Some(content.clone()), tool_calls: vec![], model: "scripted-1".to_string() };
        let mut flow = StepFlow::begin(false);
        let response = match flow.model_answered(Ok(reply)) {
            StepCommand::Decide(r) => r,
            _ => panic!("a model answer is used"),
        };
        let raw = decode(&content);
        let fenced = if raw.is_none() { fence_retry_text(&content).and_then(decode) } else { None };
        let output = parse_agent_output(&response, raw, fenced).expect("never fails");
        let mut batch = flow.decided(output.action.len());
        while let Some(i) = batch.next_action() {
            let action = &output.action[i];
            match registry.get(&action.name) {
                None => batch.record_unknown(&action.name, &mut detector, action.name.0.clone()),
                Some(meta) => {
                    let outcome = if action.name.0 == "navigate" {
                        let url = action.parameters.get("url").and_then(|u| u.as_str()).unwrap_or("").to_string();
                        navigations.push(url.clone());
                        Ok(ActionResult::ok(format!("navigated to {url}")))
                    } else {
                        let text = action.parameters.get("text").and_then(|t| t.as_str()).unwrap_or("").to_string();
                        Ok(ActionResult::done(text))
                    };
                    batch.record_outcome(meta.terminates_sequence, outcome, &mut detector, action.name.0.clone());
                }
            }
        }
        run.record_step(StepRecord {
            step,
            started_at: 0,
            url: None,
            output,
            results: batch.into_results(),
            metadata: StepMetadata { duration_ms: 1, step_interval_ms: None, usage: Usage::default(), model: Some("scripted-1".to_string()), fallback_used: false },
            summary: None,
            screenshot: None,
        });
    }
    (run.finish(), navigations)
}

#[test]
fn agent_navigates_then_completes() {
    let plan_step1 = r#"{"current_state":{"evaluation_previous_goal":"start","memory":"","next_goal":"open example"},"action":[{"name":"navigate","parameters":{"url":"https://example.com/"}}]}"#;
    let plan_step2 = r#"{"current_state":{"evaluation_previous_goal":"navigated","memory":"on example.com","next_goal":"finish"},"action":[{"name":"done","parameters":{"text":"Done."}}]}"#;
    let (history, navs) = run_scripted("open example.com", vec![plan_step1, plan_step2], 5);

    assert_eq!(navs.len(), 1, "navigate should be called once");
    assert_eq!(navs[0].as_str(), "https://example.com/");

    let final_text = history.final_result().expect("final result present");
    assert!(final_text.contains("Done"), "final result: {final_text}");

    let mut total_steps = 0usize;
    let mut saw_done = false;
    for hist in &history.histories {
        for step in &hist.steps {
            total_steps += 1;
            if step.results.iter().any(|r| r.is_done) {
                saw_done = true;
            }
        }
    }
    assert_eq!(total_steps, 2, "expected 2 steps, got {total_steps}");
    assert!(saw_done, "expected one step to terminate via done action");
}

#[test]
fn agent_aborts_after_consecutive_empty_actions() {
    let (history, _) = run_scripted("noop", vec![EMPTY, EMPTY, EMPTY], 10);
    let mut total = 0;
    for h in &history.histories {
        total += h.steps.len();
    }
    assert!(total <= 2, "agent should bail after 2 empty streaks, ran {total} steps");
}

#[test]
fn agent_recovers_from_markdown_fenced_response() {
    let fenced_step1 = "```json\n{\"current_state\":{\"evaluation_previous_goal\":\"\",\"memory\":\"\",\"next_goal\":\"go\"},\"action\":[{\"name\":\"navigate\",\"parameters\":{\"url\":\"https://example.com/\"}}]}\n```";
    let plain_step2 = r#"{"current_state":{"evaluation_previous_goal":"navigated","memory":"","next_goal":"finish"},"action":[{"name":"done","parameters":{"text":"Done."}}]}"#;
    let (history, navs) = run_scripted("fenced task", vec![fenced_step1, plain_step2], 5);

    let first_step = history.histories.first().and_then(|h| h.steps.first()).expect("at least one step");
    assert!(!first_step.output.action.is_empty(), "fenced JSON must parse into a non-empty action list");
    assert_eq!(navs.len(), 1, "navigate should reach browser through fence");
    assert_eq!(navs[0].as_str(), "https://example.com/");
}
