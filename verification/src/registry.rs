//! The catalog of actions the agent may run.

use vstd::prelude::*;

use crate::error::AppError;
use crate::ids::ActionName;
use crate::text::{push_text, same_text};

verus! {

/// What the agent knows of a registered action: its name, what it does, the
/// JSON text of its parameter schema, and whether it ends the step.
#[derive(Debug, Clone)]
pub struct ActionMetadata {
    pub name: ActionName,
    pub description: String,
    pub parameters_schema: String,
    pub terminates_sequence: bool,
}

/// Registered actions in registration order; no name occurs twice.
#[derive(Debug)]
pub struct ActionRegistry {
    actions: Vec<ActionMetadata>,
}

impl View for ActionRegistry {
    type V = Seq<ActionMetadata>;

    closed spec fn view(&self) -> Seq<ActionMetadata> {
        self.actions@
    }
}

/// No two entries share a name.
pub open spec fn names_distinct(s: Seq<ActionMetadata>) -> bool {
    forall|i: int, j: int|
        0 <= i < s.len() && 0 <= j < s.len() && i != j ==> #[trigger] s[i].name.0@ != #[trigger] s[j].name.0@
}

/// Whether an action named `name` is registered.
pub open spec fn registered(registry: ActionRegistry, name: Seq<char>) -> bool {
    exists|i: int| 0 <= i < registry@.len() && #[trigger] registry@[i].name.0@ == name
}

impl ActionRegistry {
    #[verifier::type_invariant]
    closed spec fn inv(self) -> bool {
        names_distinct(self.actions@)
    }

    /// An empty registry.
    pub fn new() -> (r: Self)
        ensures
            r@.len() == 0,
    {
        ActionRegistry { actions: Vec::new() }
    }

    /// Adds an action; refused when its name is already registered.
    pub fn register(&mut self, meta: ActionMetadata) -> (res: Result<(), AppError>)
        ensures
            registered(*old(self), meta.name.0@) ==> res is Err && final(self)@ == old(self)@,
            !registered(*old(self), meta.name.0@) ==> res is Ok && final(self)@ == old(self)@.push(meta),
    {
        proof { use_type_invariant(&*self); }
        if self.get(&meta.name).is_some() {
            let mut msg = String::new();
            push_text(&mut msg, "action already registered: ");
            push_text(&mut msg, meta.name.0.as_str());
            return Err(AppError::ValidationError(msg));
        }
        let ghost old_actions = self.actions@;
        let ghost m = meta;
        let mut actions = Vec::new();
        std::mem::swap(&mut actions, &mut self.actions);
        actions.push(meta);
        assert(names_distinct(actions@)) by {
            assert forall|i: int, j: int|
                0 <= i < actions@.len() && 0 <= j < actions@.len() && i != j implies
                #[trigger] actions@[i].name.0@ != #[trigger] actions@[j].name.0@ by {
                if i == old_actions.len() as int {
                    assert(actions@[j] == old_actions[j]);
                } else if j == old_actions.len() as int {
                    assert(actions@[i] == old_actions[i]);
                } else {
                    assert(actions@[i] == old_actions[i] && actions@[j] == old_actions[j]);
                }
            }
        }
        self.actions = actions;
        Ok(())
    }

    /// The registered action named `name`, if any.
    pub fn get(&self, name: &ActionName) -> (r: Option<&ActionMetadata>)
        ensures
            match r {
                Some(m) => registered(*self, name.0@) && m.name.0@ == name.0@
                    && exists|i: int| 0 <= i < self@.len() && self@[i] == *m,
                None => !registered(*self, name.0@),
            },
    {
        let mut i: usize = 0;
        while i < self.actions.len()
            invariant
                i <= self@.len(),
                self.actions@ == self@,
                forall|k: int| 0 <= k < i ==> #[trigger] self@[k].name.0@ != name.0@,
            decreases self@.len() - i,
        {
            if same_text(self.actions[i].name.0.as_str(), name.0.as_str()) {
                return Some(&self.actions[i]);
            }
            i = i + 1;
        }
        None
    }

    /// How many actions are registered.
    pub fn len(&self) -> (n: usize)
        ensures
            n == self@.len(),
    {
        self.actions.len()
    }

    /// Whether no action is registered.
    pub fn is_empty(&self) -> (b: bool)
        ensures
            b == (self@.len() == 0),
    {
        self.actions.len() == 0
    }

    /// The `i`-th registered action.
    pub fn entry(&self, i: usize) -> (m: &ActionMetadata)
        requires
            i < self@.len(),
        ensures
            *m == self@[i as int],
    {
        &self.actions[i]
    }
}

} // verus!
