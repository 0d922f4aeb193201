//! The control decisions of an agent run: when to take another step, when to
//! re-prompt after an empty answer, and when to stop.

use vstd::prelude::*;

use crate::detect_loop::{EMPTY_ACTION_NOTE, build_empty_action_nudge};
use crate::history::{ActionResult, AgentHistory, AgentHistoryList, StepRecord};
use crate::ids::{AgentId, StepId};
use crate::llm::{ChatMessage, MessageView};

verus! {

/// A run stops after this many consecutive steps without an action.
pub const EMPTY_STREAK_LIMIT: u32 = 2;

/// The step budget of a run unless set otherwise.
pub const DEFAULT_MAX_STEPS: u32 = 25;

/// Whether some result of the step ended the run.
pub open spec fn step_is_done(r: StepRecord) -> bool {
    exists|i: int| 0 <= i < r.results@.len() && #[trigger] r.results@[i].is_done
}

/// The state of a run between steps.
pub struct AgentRun {
    history: AgentHistory,
    max_steps: u32,
    empty_streak: u32,
    prev_empty: bool,
    last_step_ms: Option<u64>,
    stopped: bool,
}

/// A run by its parts: the steps taken, the budget, the current streak of
/// steps without an action, whether the last step had none, the last step's
/// duration, and whether the run has stopped.
pub struct RunView {
    pub agent: AgentId,
    pub task: Seq<char>,
    pub steps: Seq<StepRecord>,
    pub max_steps: u32,
    pub empty_streak: u32,
    pub prev_empty: bool,
    pub last_step_ms: Option<u64>,
    pub stopped: bool,
}

impl View for AgentRun {
    type V = RunView;

    closed spec fn view(&self) -> RunView {
        RunView {
            agent: self.history.agent,
            task: self.history.task@,
            steps: self.history.steps@,
            max_steps: self.max_steps,
            empty_streak: self.empty_streak,
            prev_empty: self.prev_empty,
            last_step_ms: self.last_step_ms,
            stopped: self.stopped,
        }
    }
}

/// Whether the run may take another step.
pub open spec fn may_continue(v: RunView) -> bool {
    !v.stopped && v.steps.len() < v.max_steps
}

/// The run after recording `r` (with its interval already set): the streak
/// grows on an empty action list and resets otherwise, and the run stops on a
/// finishing result or on `EMPTY_STREAK_LIMIT` empty steps in a row.
pub open spec fn after_step(v: RunView, r: StepRecord) -> RunView {
    let empty = r.output.action@.len() == 0;
    let streak = if empty { (v.empty_streak + 1) as u32 } else { 0u32 };
    RunView {
        agent: v.agent,
        task: v.task,
        steps: v.steps.push(r),
        max_steps: v.max_steps,
        empty_streak: streak,
        prev_empty: empty,
        last_step_ms: Some(r.metadata.duration_ms),
        stopped: step_is_done(r) || streak >= EMPTY_STREAK_LIMIT,
    }
}

/// What holds of every run: it is within budget, its empty streak never
/// passes the limit and reaching the limit has stopped it, and "the last step
/// was empty" agrees with the streak, and the `i`-th step recorded is step `i`.
pub open spec fn run_consistent(v: RunView) -> bool {
    &&& v.steps.len() <= v.max_steps
    &&& forall|i: int| 0 <= i < v.steps.len() ==> (#[trigger] v.steps[i]).step.0 == i
    &&& v.empty_streak < EMPTY_STREAK_LIMIT || v.stopped
    &&& v.empty_streak <= EMPTY_STREAK_LIMIT
    &&& v.prev_empty == (v.empty_streak > 0)
}

impl AgentRun {
    #[verifier::type_invariant]
    closed spec fn inv(self) -> bool {
        &&& self.history.steps@.len() <= self.max_steps
        &&& self.empty_streak < EMPTY_STREAK_LIMIT || self.stopped
        &&& self.empty_streak <= EMPTY_STREAK_LIMIT
        &&& self.prev_empty == (self.empty_streak > 0)
        &&& forall|i: int| 0 <= i < self.history.steps@.len() ==> (#[trigger] self.history.steps@[i]).step.0 == i
    }

    /// A fresh run of `task` with a budget of `max_steps` steps.
    pub fn start(agent: AgentId, task: String, max_steps: u32) -> (run: Self)
        ensures
            run@.agent == agent,
            run@.task == task@,
            run@.steps.len() == 0,
            run@.max_steps == max_steps,
            run@.empty_streak == 0,
            !run@.prev_empty,
            run@.last_step_ms is None,
            !run@.stopped,
            run_consistent(run@),
    {
        AgentRun {
            history: AgentHistory { agent, task, steps: Vec::new() },
            max_steps,
            empty_streak: 0,
            prev_empty: false,
            last_step_ms: None,
            stopped: false,
        }
    }

    /// The next step's number, or `None` once the run stopped or used its budget.
    pub fn next_step(&self) -> (s: Option<StepId>)
        ensures
            match s {
                Some(id) => may_continue(self@) && id.0 == self@.steps.len(),
                None => !may_continue(self@),
            },
    {
        proof { use_type_invariant(self); }
        if self.stopped || self.history.steps.len() >= self.max_steps as usize {
            None
        } else {
            Some(StepId(self.history.steps.len() as u32))
        }
    }

    /// What holds of every run (see `run_consistent`).
    pub fn check_consistent(&self)
        ensures
            run_consistent(self@),
    {
        proof { use_type_invariant(self); }
    }

    /// The re-prompt to add to the next step's messages, after an empty step.
    pub fn empty_action_nudge(&self) -> (m: Option<ChatMessage>)
        ensures
            match m {
                None => !self@.prev_empty,
                Some(msg) => self@.prev_empty && msg@ == MessageView::System(EMPTY_ACTION_NOTE@, false),
            },
    {
        build_empty_action_nudge(self.prev_empty)
    }

    /// The steps taken so far.
    pub fn steps(&self) -> (s: &[StepRecord])
        ensures
            s@ == self@.steps,
    {
        self.history.steps.as_slice()
    }

    /// Records a finished step: its interval becomes the previous step's
    /// duration; the run stops on a finishing result or on the second empty
    /// step in a row.
    pub fn record_step(&mut self, record: StepRecord)
        requires
            may_continue(old(self)@),
            record.step.0 == old(self)@.steps.len(),
        ensures
            final(self)@ == after_step(old(self)@, StepRecord {
                metadata: crate::history::StepMetadata {
                    step_interval_ms: old(self)@.last_step_ms,
                    ..record.metadata
                },
                ..record
            }),
            run_consistent(final(self)@),
    {
        proof { use_type_invariant(&*self); }
        let mut record = record;
        record.metadata.step_interval_ms = self.last_step_ms;
        let duration = record.metadata.duration_ms;
        let done = any_done(&record.results);
        let empty = record.output.action.len() == 0;
        let streak = if empty { self.empty_streak + 1 } else { 0 };
        let mut steps = Vec::new();
        std::mem::swap(&mut steps, &mut self.history.steps);
        steps.push(record);
        let history = AgentHistory {
            agent: self.history.agent,
            task: self.history.task.clone(),
            steps,
        };
        *self = AgentRun {
            history,
            max_steps: self.max_steps,
            empty_streak: streak,
            prev_empty: empty,
            last_step_ms: Some(duration),
            stopped: done || streak >= EMPTY_STREAK_LIMIT,
        };
    }

    /// The finished run as a one-run history list.
    pub fn finish(self) -> (list: AgentHistoryList)
        ensures
            list.histories@.len() == 1,
            list.histories@[0].agent == self@.agent,
            list.histories@[0].task@ == self@.task,
            list.histories@[0].steps@ == self@.steps,
    {
        let mut list = AgentHistoryList::new();
        list.push(self.history);
        list
    }
}

fn any_done(rs: &Vec<ActionResult>) -> (b: bool)
    ensures
        b == exists|i: int| 0 <= i < rs@.len() && #[trigger] rs@[i].is_done,
{
    let mut i: usize = 0;
    while i < rs.len()
        invariant
            i <= rs@.len(),
            forall|k: int| 0 <= k < i ==> !(#[trigger] rs@[k]).is_done,
        decreases rs@.len() - i,
    {
        if rs[i].is_done {
            return true;
        }
        i = i + 1;
    }
    false
}


/// A step with a finishing result ends the run.
pub proof fn law_done_step_stops(v: RunView, r: StepRecord)
    requires
        step_is_done(r),
    ensures
        !may_continue(after_step(v, r)),
{
}

/// A second step in a row without an action ends the run.
pub proof fn law_second_empty_step_stops(v: RunView, r: StepRecord)
    requires
        run_consistent(v),
        v.prev_empty,
        r.output.action@.len() == 0,
    ensures
        !may_continue(after_step(v, r)),
{
}

/// Recording the next step keeps a run consistent; in particular it never
/// exceeds its step budget and steps stay numbered in order.
pub proof fn law_record_keeps_consistent(v: RunView, r: StepRecord)
    requires
        run_consistent(v),
        may_continue(v),
        r.step.0 == v.steps.len(),
    ensures
        run_consistent(after_step(v, r)),
        after_step(v, r).steps.len() <= v.max_steps,
{
}

/// A step that ran actions and did not finish lets the run go on while
/// budget remains, and clears the empty streak.
pub proof fn law_action_step_continues(v: RunView, r: StepRecord)
    requires
        run_consistent(v),
        may_continue(v),
        !step_is_done(r),
        r.output.action@.len() > 0,
        v.steps.len() + 1 < v.max_steps,
    ensures
        may_continue(after_step(v, r)),
        after_step(v, r).empty_streak == 0,
        !after_step(v, r).prev_empty,
{
}

/// From a fresh run, two steps without actions end it after exactly two steps.
pub proof fn law_two_empty_steps_from_start(v: RunView, r1: StepRecord, r2: StepRecord)
    requires
        v.steps.len() == 0,
        v.empty_streak == 0,
        !v.prev_empty,
        !v.stopped,
        v.max_steps >= 2,
        r1.output.action@.len() == 0,
        r2.output.action@.len() == 0,
    ensures
        may_continue(after_step(v, r1)) || step_is_done(r1),
        !may_continue(after_step(after_step(v, r1), r2)),
        after_step(after_step(v, r1), r2).steps.len() == 2,
{
}

} // verus!
