use ai_surfer::agent_output::{ActionInvocation, AgentBrain, AgentOutput};
use ai_surfer::ids::ActionName;
use ai_surfer::registry::{ActionMetadata, ActionRegistry};
use ai_surfer::salvage::{json_slice, salvage_actions, salvage_into};
use serde_json::Value;

fn parse_action(v: &Value) -> Option<ActionInvocation> {
    let obj = v.as_object()?;
    let name = obj.get("name")?.as_str()?.to_string();
    let parameters = obj.get("parameters")?.clone();
    Some(ActionInvocation { name: ActionName(name), parameters })
}

fn parse_output(v: &Value) -> Option<AgentOutput> {
    let obj = v.as_object()?;
    let cs = obj.get("current_state")?.as_object()?;
    let field = |k: &str| match cs.get(k) {
        None | Some(Value::Null) => Some(String::new()),
        Some(Value::String(s)) => Some(s.clone()),
        Some(_) => None,
    };
    let current_state = AgentBrain {
        evaluation_previous_goal: field("evaluation_previous_goal")?,
        memory: field("memory")?,
        next_goal: field("next_goal")?,
    };
    let mut action = Vec::new();
    for a in obj.get("action")?.as_array()? {
        action.push(parse_action(a)?);
    }
    Some(AgentOutput { current_state, action, plan: None, current_plan_item: None })
}

fn salvage(text: &str) -> Vec<ActionInvocation> {
    let Some(json) = json_slice(text) else {
        return Vec::new();
    };
    let v: Option<Value> = serde_json::from_str(json).ok();
    let as_output = v.as_ref().and_then(parse_output);
    let as_list = v.as_ref().and_then(|v| v.as_array()).and_then(|a| a.iter().map(parse_action).collect::<Option<Vec<_>>>());
    let as_single = v.as_ref().and_then(parse_action);
    salvage_actions(as_output, as_list, as_single)
}

fn registry_with(names: &[&str]) -> ActionRegistry {
    let mut r = ActionRegistry::new();
    for n in names {
        r.register(ActionMetadata {
            name: ActionName(n.to_string()),
            description: String::new(),
            parameters_schema: "{}".to_string(),
            terminates_sequence: false,
        })
        .expect("register");
    }
    r
}

fn output_with_next_goal(next_goal: &str) -> AgentOutput {
    AgentOutput {
        current_state: AgentBrain {
            evaluation_previous_goal: String::new(),
            memory: String::new(),
            next_goal: next_goal.into(),
        },
        action: vec![],
        plan: None,
        current_plan_item: None,
    }
}

#[test]
fn salvages_action_from_a_nested_agent_output() {
    let ng = r#"{"current_state":{"next_goal":""},"action":[{"name":"type_text","parameters":{"index":83}}]}"#;
    let out = salvage(ng);
    assert_eq!(out.len(), 1);
    assert_eq!(out[0].name.0.as_str(), "type_text");
}

#[test]
fn salvages_a_bare_action_object_wrapped_in_prose() {
    let out = salvage("I will: {\"name\":\"click_element\",\"parameters\":{\"index\":5}}");
    assert_eq!(out.len(), 1);
    assert_eq!(out[0].name.0.as_str(), "click_element");
}

#[test]
fn no_actions_from_plain_prose() {
    assert!(salvage("I will now click the search button").is_empty());
}

#[test]
fn salvage_into_keeps_only_registry_valid_actions() {
    let registry = registry_with(&["navigate", "type_text", "click_element", "done"]);

    let mut output = output_with_next_goal(r#"{"name":"type_text","parameters":{"index":1,"text":"x"}}"#);
    let found = salvage(&output.current_state.next_goal.clone());
    salvage_into(&mut output, found, &registry);
    assert_eq!(output.action.len(), 1, "a registered action is salvaged");
    assert_eq!(output.action[0].name.0.as_str(), "type_text");

    let mut unknown = output_with_next_goal(r#"{"name":"definitely_not_a_tool","parameters":{}}"#);
    let found = salvage(&unknown.current_state.next_goal.clone());
    salvage_into(&mut unknown, found, &registry);
    assert!(unknown.action.is_empty(), "an unregistered action is dropped");
}

#[test]
fn json_slice_bounds() {
    assert_eq!(json_slice("a {x} b [y] c"), Some("{x} b [y]"));
    assert_eq!(json_slice("} then {"), None);
    assert_eq!(json_slice("no brackets"), None);
    assert_eq!(json_slice("{}"), Some("{}"));
    assert_eq!(json_slice("é[1]é"), Some("[1]"));
}

#[test]
fn a_list_of_actions_is_salvaged_in_order() {
    let out = salvage(r#"do [{"name":"a","parameters":{}},{"name":"b","parameters":{}}] now"#);
    let names: Vec<&str> = out.iter().map(|a| a.name.0.as_str()).collect();
    assert_eq!(names, vec!["a", "b"]);
}

#[test]
fn present_actions_are_never_replaced() {
    let registry = registry_with(&["navigate"]);
    let mut output = output_with_next_goal("");
    output.action.push(ActionInvocation { name: ActionName("navigate".into()), parameters: Value::Null });
    let extra = vec![ActionInvocation { name: ActionName("navigate".into()), parameters: Value::Bool(true) }];
    salvage_into(&mut output, extra, &registry);
    assert_eq!(output.action.len(), 1);
    assert_eq!(output.action[0].parameters, Value::Null);
}
