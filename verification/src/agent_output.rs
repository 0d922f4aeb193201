//! What the model decides at each step.

use vstd::prelude::*;

use crate::ids::ActionName;

verus! {

/// The model's running commentary on its progress.
#[derive(Debug, Clone)]
pub struct AgentBrain {
    pub evaluation_previous_goal: String,
    pub memory: String,
    pub next_goal: String,
}

/// One entry of the model's plan.
#[derive(Debug, Clone)]
pub struct PlanItem {
    pub step: u32,
    pub description: String,
    pub completed: bool,
}

/// One action the model asks to run, with its JSON parameters.
#[derive(Debug, Clone)]
pub struct ActionInvocation {
    pub name: ActionName,
    pub parameters: serde_json::Value,
}

impl ActionInvocation {
    /// A copy of this invocation.
    pub fn clone_action(&self) -> (r: Self)
        ensures
            r == *self,
    {
        ActionInvocation { name: ActionName(self.name.0.clone()), parameters: self.parameters.clone() }
    }
}

/// The model's decision for one step.
#[derive(Debug, Clone)]
pub struct AgentOutput {
    pub current_state: AgentBrain,
    pub action: Vec<ActionInvocation>,
    pub plan: Option<Vec<PlanItem>>,
    pub current_plan_item: Option<u32>,
}

/// The action's name, by its characters.
pub open spec fn action_name(a: ActionInvocation) -> Seq<char> {
    a.name.0@
}

} // verus!
