use ai_surfer::agent_output::{ActionInvocation, AgentBrain, AgentOutput};
use ai_surfer::ids::ActionName;
use ai_surfer::llm::{ChatResponse, ToolCall};
use ai_surfer::parse_output::{fence_retry_text, parse_agent_output, strip_code_fence};
use serde_json::Value;

fn text_field(obj: &serde_json::Map<String, Value>, key: &str) -> Option<String> {
    match obj.get(key) {
        None | Some(Value::Null) => Some(String::new()),
        Some(Value::String(s)) => Some(s.clone()),
        Some(_) => None,
    }
}

fn parse_action(v: &Value) -> Option<ActionInvocation> {
    let obj = v.as_object()?;
    let name = obj.get("name")?.as_str()?.to_string();
    let parameters = obj.get("parameters")?.clone();
    Some(ActionInvocation { name: ActionName(name), parameters })
}

fn parse_output(text: &str) -> Option<AgentOutput> {
    let v: Value = serde_json::from_str(text).ok()?;
    let obj = v.as_object()?;
    let cs = obj.get("current_state")?.as_object()?;
    let current_state = AgentBrain {
        evaluation_previous_goal: text_field(cs, "evaluation_previous_goal")?,
        memory: text_field(cs, "memory")?,
        next_goal: text_field(cs, "next_goal")?,
    };
    let mut action = Vec::new();
    for a in obj.get("action")?.as_array()? {
        action.push(parse_action(a)?);
    }
    Some(AgentOutput { current_state, action, plan: None, current_plan_item: None })
}

fn parse(resp: &ChatResponse) -> AgentOutput {
    let (raw, fenced) = match &resp.content {
        Some(c) => {
            let raw = parse_output(c);
            let fenced = if raw.is_none() { fence_retry_text(c).and_then(parse_output) } else { None };
            (raw, fenced)
        }
        None => (None, None),
    };
    match parse_agent_output(resp, raw, fenced) {
        Ok(o) => o,
        Err(_) => panic!("parse"),
    }
}

fn resp(content: &str) -> ChatResponse {
    ChatResponse { content: Some(content.into()), tool_calls: vec![], model: "test".into() }
}

const VALID: &str = r#"{"current_state":{"evaluation_previous_goal":"","memory":"","next_goal":"go"},"action":[{"name":"navigate","parameters":{"url":"https://example.com/"}}]}"#;

#[test]
fn unfenced_json_parses() {
    let out = parse(&resp(VALID));
    assert_eq!(out.action.len(), 1);
}

#[test]
fn fenced_with_json_tag_and_newline() {
    let body = format!("```json\n{VALID}\n```");
    let out = parse(&resp(&body));
    assert_eq!(out.action.len(), 1);
}

#[test]
fn fenced_with_uppercase_json_tag() {
    let body = format!("```JSON\n{VALID}\n```");
    let out = parse(&resp(&body));
    assert_eq!(out.action.len(), 1);
}

#[test]
fn fenced_with_titlecase_json_tag() {
    let body = format!("```Json\n{VALID}\n```");
    let out = parse(&resp(&body));
    assert_eq!(out.action.len(), 1);
}

#[test]
fn fenced_without_language_tag() {
    let body = format!("```\n{VALID}\n```");
    let out = parse(&resp(&body));
    assert_eq!(out.action.len(), 1);
}

#[test]
fn fenced_with_surrounding_whitespace() {
    let body = format!("\n\n  ```json\n{VALID}\n```  \n\n");
    let out = parse(&resp(&body));
    assert_eq!(out.action.len(), 1);
}

#[test]
fn fenced_invalid_json_falls_back_to_empty_actions() {
    let body = "```json\nnot json at all\n```";
    let out = parse(&resp(body));
    assert!(out.action.is_empty());
}

#[test]
fn unfenced_invalid_json_falls_back_to_empty_actions() {
    let out = parse(&resp("totally not json"));
    assert!(out.action.is_empty());
}

#[test]
fn null_brain_fields_parse_as_empty_strings() {
    let body = r#"{"current_state":{"evaluation_previous_goal":null,"memory":null,"next_goal":"go"},"action":[{"name":"navigate","parameters":{"url":"https://example.com/"}}]}"#;
    let out = parse(&resp(body));
    assert_eq!(out.action.len(), 1, "action should not be lost to null brain fields");
    assert_eq!(out.current_state.evaluation_previous_goal, "");
    assert_eq!(out.current_state.memory, "");
    assert_eq!(out.current_state.next_goal, "go");
}

#[test]
fn missing_brain_fields_default_to_empty() {
    let body = r#"{"current_state":{"next_goal":"go"},"action":[{"name":"navigate","parameters":{"url":"https://example.com/"}}]}"#;
    let out = parse(&resp(body));
    assert_eq!(out.action.len(), 1);
    assert_eq!(out.current_state.evaluation_previous_goal, "");
    assert_eq!(out.current_state.memory, "");
}

#[test]
fn strip_code_fence_cases() {
    assert_eq!(strip_code_fence("```json\n{\"a\":1}\n```"), "{\"a\":1}");
    assert_eq!(strip_code_fence("  {\"a\":1}  "), "{\"a\":1}");
    assert_eq!(strip_code_fence("```\n\n  x  \n```"), "x");
    assert_eq!(strip_code_fence(""), "");
    assert_eq!(strip_code_fence("```"), "");
    assert_eq!(strip_code_fence("\u{00A0}```JSON{}```\u{3000}"), "{}");
}

#[test]
fn retry_only_when_the_body_moved() {
    assert_eq!(fence_retry_text("```json\n{}\n```"), Some("{}"));
    assert_eq!(fence_retry_text("{}```"), None);
    assert_eq!(fence_retry_text("{}"), None);
    assert_eq!(fence_retry_text("   "), None);
    assert_eq!(fence_retry_text(" {} "), Some("{}"));
}

#[test]
fn fallback_keeps_text_and_tool_calls() {
    let r = ChatResponse {
        content: Some("thinking".to_string()),
        tool_calls: vec![ToolCall { name: "click".to_string(), arguments: serde_json::from_str("{\"index\":2}").unwrap() }],
        model: "m".to_string(),
    };
    let out = parse(&r);
    assert_eq!(out.current_state.next_goal, "thinking");
    assert_eq!(out.current_state.memory, "");
    assert_eq!(out.action.len(), 1);
    assert_eq!(out.action[0].name.0, "click");
    assert_eq!(out.action[0].parameters["index"], 2);
    assert!(out.plan.is_none());

    let none = ChatResponse { content: None, tool_calls: vec![], model: "m".to_string() };
    let out = parse(&none);
    assert_eq!(out.current_state.next_goal, "");
    assert!(out.action.is_empty());
}
