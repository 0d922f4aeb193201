use ai_surfer::agent_output::{AgentBrain, AgentOutput};
use ai_surfer::history::{ActionResult, StepMetadata, StepRecord, Usage};
use ai_surfer::ids::{ActionName, StepId};
use ai_surfer::llm::{ChatMessage, ContentPart};
use ai_surfer::prompt::{build_prompt, render_action_catalog, AGENT_OUTPUT_SHAPE, DECIDE_INSTRUCTION};
use ai_surfer::registry::{ActionMetadata, ActionRegistry};

fn meta(name: &str, terminates: bool) -> ActionMetadata {
    ActionMetadata {
        name: ActionName(name.to_string()),
        description: format!("{name} things"),
        parameters_schema: "{\"type\":\"object\"}".to_string(),
        terminates_sequence: terminates,
    }
}

fn step(n: u32, with_result: bool) -> StepRecord {
    StepRecord {
        step: StepId(n),
        started_at: 0,
        url: None,
        output: AgentOutput {
            current_state: AgentBrain { evaluation_previous_goal: String::new(), memory: String::new(), next_goal: String::new() },
            action: vec![],
            plan: None,
            current_plan_item: None,
        },
        results: if with_result { vec![ActionResult::ok(format!("r{n}"))] } else { vec![] },
        metadata: StepMetadata { duration_ms: 0, step_interval_ms: None, usage: Usage::default(), model: None, fallback_used: false },
        summary: None,
        screenshot: None,
    }
}

#[test]
fn catalog_lists_actions_in_registration_order() {
    let mut r = ActionRegistry::new();
    assert_eq!(render_action_catalog(&r), "(no actions registered)\n");
    r.register(meta("navigate", false)).expect("first");
    r.register(meta("done", true)).expect("second");
    assert!(r.register(meta("done", false)).is_err());
    assert_eq!(r.len(), 2);
    assert_eq!(
        render_action_catalog(&r),
        "- navigate: navigate things\n  parameters_schema: {\"type\":\"object\"}\n- done: done things [terminates step]\n  parameters_schema: {\"type\":\"object\"}\n"
    );
}

#[test]
fn prompt_replays_the_last_four_steps() {
    let r = ActionRegistry::new();
    let history: Vec<StepRecord> = (0..6).map(|n| step(n, n != 4)).collect();
    let decisions: Vec<Option<String>> = (0..6).map(|n| if n == 3 { None } else { Some(format!("d{n}")) }).collect();
    let msgs = build_prompt("find it", &history, &decisions, &r);
    match &msgs[0] {
        ChatMessage::System(s) => {
            assert!(s.cache);
            assert!(s.content.starts_with("You are a browsing agent. Your task: find it\n\n"));
            assert!(s.content.contains(AGENT_OUTPUT_SHAPE));
            assert!(s.content.contains("Available actions:\n(no actions registered)\n\n\nRules:"));
        }
        _ => panic!("system first"),
    }
    let kinds: Vec<String> = msgs[1..msgs.len() - 1]
        .iter()
        .map(|m| match m {
            ChatMessage::Assistant(a) => a.content.clone(),
            ChatMessage::User(u) => match &u.content[0] {
                ContentPart::Text { text } => text.lines().next().unwrap_or("").to_string(),
                _ => String::new(),
            },
            ChatMessage::System(_) => "system".to_string(),
        })
        .collect();
    assert_eq!(kinds, vec!["d2", "Step 2 result:", "Step 3 result:", "d4", "d5", "Step 5 result:"]);
    match msgs.last().unwrap() {
        ChatMessage::User(u) => match &u.content[0] {
            ContentPart::Text { text } => assert_eq!(text, DECIDE_INSTRUCTION),
            _ => panic!("text"),
        },
        _ => panic!("user last"),
    }
}
