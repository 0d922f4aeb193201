//! The record of what an agent did, step by step.

use vstd::prelude::*;

use crate::agent_output::AgentOutput;
use crate::clickable_map::BrowserStateSummary;
use crate::ids::{AgentId, StepId, opt_text};
use crate::screenshot::StepScreenshot;

verus! {

/// The outcome of running one action.
#[derive(Debug, Clone)]
pub struct ActionResult {
    pub is_done: bool,
    pub extracted_content: Option<String>,
    pub error: Option<String>,
    pub images: Vec<String>,
}

impl ActionResult {
    /// A successful result carrying `text`.
    pub fn ok(text: String) -> (r: Self)
        ensures
            !r.is_done,
            opt_text(r.extracted_content) == Some(text@),
            r.error is None,
            r.images@.len() == 0,
    {
        ActionResult { is_done: false, extracted_content: Some(text), error: None, images: Vec::new() }
    }

    /// A failed result carrying the error `text`.
    pub fn err(text: String) -> (r: Self)
        ensures
            !r.is_done,
            r.extracted_content is None,
            opt_text(r.error) == Some(text@),
            r.images@.len() == 0,
    {
        ActionResult { is_done: false, extracted_content: None, error: Some(text), images: Vec::new() }
    }

    /// A result that ends the run, carrying the final answer `text`.
    pub fn done(text: String) -> (r: Self)
        ensures
            r.is_done,
            opt_text(r.extracted_content) == Some(text@),
            r.error is None,
            r.images@.len() == 0,
    {
        ActionResult { is_done: true, extracted_content: Some(text), error: None, images: Vec::new() }
    }

    /// The same result with one more base64 image attached.
    pub fn with_image(self, image_b64: String) -> (r: Self)
        ensures
            r.is_done == self.is_done,
            r.extracted_content == self.extracted_content,
            r.error == self.error,
            r.images@ == self.images@.push(image_b64),
    {
        let mut r = self;
        r.images.push(image_b64);
        r
    }

    /// Whether the action failed.
    pub fn is_error(&self) -> (b: bool)
        ensures
            b == self.error is Some,
    {
        self.error.is_some()
    }
}

/// The result of the `done` action: the run ends with `text` as its answer.
pub fn done_result(text: String) -> (r: ActionResult)
    ensures
        r.is_done,
        opt_text(r.extracted_content) == Some(text@),
        r.error is None,
        r.images@.len() == 0,
{
    ActionResult::done(text)
}

/// Token counts reported by the model provider.
#[derive(Debug, Clone, Copy, Default)]
pub struct Usage {
    pub input_tokens: u64,
    pub output_tokens: u64,
}

/// Timing and model facts about one step.
#[derive(Debug, Clone)]
pub struct StepMetadata {
    pub duration_ms: u64,
    pub step_interval_ms: Option<u64>,
    pub usage: Usage,
    pub model: Option<String>,
    pub fallback_used: bool,
}

/// Everything one step saw, decided and produced.
#[derive(Debug, Clone)]
pub struct StepRecord {
    pub step: StepId,
    /// When the step began, in milliseconds since the Unix epoch (UTC).
    pub started_at: i64,
    pub url: Option<String>,
    pub output: AgentOutput,
    pub results: Vec<ActionResult>,
    pub metadata: StepMetadata,
    pub summary: Option<BrowserStateSummary>,
    pub screenshot: Option<StepScreenshot>,
}

/// One agent run: its task and its steps.
#[derive(Debug, Clone)]
pub struct AgentHistory {
    pub agent: AgentId,
    pub task: String,
    pub steps: Vec<StepRecord>,
}

/// The runs recorded so far.
#[derive(Debug, Clone)]
pub struct AgentHistoryList {
    pub histories: Vec<AgentHistory>,
}

/// The last result in `rs` that ended a run.
pub open spec fn last_done_result(rs: Seq<ActionResult>) -> Option<ActionResult>
    decreases rs.len(),
{
    if rs.len() == 0 {
        None
    } else if rs.last().is_done {
        Some(rs.last())
    } else {
        last_done_result(rs.drop_last())
    }
}

/// The last result that ended a run, over the steps in order.
pub open spec fn last_done_in_steps(steps: Seq<StepRecord>) -> Option<ActionResult>
    decreases steps.len(),
{
    if steps.len() == 0 {
        None
    } else {
        match last_done_result(steps.last().results@) {
            Some(r) => Some(r),
            None => last_done_in_steps(steps.drop_last()),
        }
    }
}

/// The last result that ended a run, over the runs in order.
pub open spec fn last_done_in_histories(hs: Seq<AgentHistory>) -> Option<ActionResult>
    decreases hs.len(),
{
    if hs.len() == 0 {
        None
    } else {
        match last_done_in_steps(hs.last().steps@) {
            Some(r) => Some(r),
            None => last_done_in_histories(hs.drop_last()),
        }
    }
}

/// The final answer: the content of the last result, over all runs and steps
/// in order, that ended a run (none when that result carries no content).
pub open spec fn final_answer(list: AgentHistoryList) -> Option<Seq<char>> {
    match last_done_in_histories(list.histories@) {
        Some(r) => opt_text(r.extracted_content),
        None => None,
    }
}

/// Optional borrowed text, by its characters.
pub open spec fn opt_str(o: Option<&str>) -> Option<Seq<char>> {
    match o {
        Some(s) => Some(s@),
        None => None,
    }
}

fn find_last_done(rs: &Vec<ActionResult>) -> (i: Option<usize>)
    ensures
        match i {
            Some(k) => k < rs@.len() && last_done_result(rs@) == Some(rs@[k as int]),
            None => last_done_result(rs@) is None,
        },
{
    let mut k = rs.len();
    assert(rs@.take(k as int) == rs@);
    while k > 0
        invariant
            k <= rs@.len(),
            last_done_result(rs@) == last_done_result(rs@.take(k as int)),
        decreases k,
    {
        assert(rs@.take(k as int).drop_last() == rs@.take(k - 1));
        if rs[k - 1].is_done {
            return Some(k - 1);
        }
        k = k - 1;
    }
    None
}

fn find_last_done_step(steps: &Vec<StepRecord>) -> (p: Option<(usize, usize)>)
    ensures
        match p {
            Some((s, r)) => s < steps@.len() && r < steps@[s as int].results@.len()
                && last_done_in_steps(steps@) == Some(steps@[s as int].results@[r as int]),
            None => last_done_in_steps(steps@) is None,
        },
{
    let mut k = steps.len();
    assert(steps@.take(k as int) == steps@);
    while k > 0
        invariant
            k <= steps@.len(),
            last_done_in_steps(steps@) == last_done_in_steps(steps@.take(k as int)),
        decreases k,
    {
        assert(steps@.take(k as int).drop_last() == steps@.take(k - 1));
        match find_last_done(&steps[k - 1].results) {
            Some(r) => {
                return Some((k - 1, r));
            },
            None => {},
        }
        k = k - 1;
    }
    None
}

impl AgentHistoryList {
    /// An empty list.
    pub fn new() -> (l: Self)
        ensures
            l.histories@.len() == 0,
    {
        AgentHistoryList { histories: Vec::new() }
    }

    /// Appends a run.
    pub fn push(&mut self, history: AgentHistory)
        ensures
            final(self).histories@ == old(self).histories@.push(history),
    {
        self.histories.push(history);
    }

    /// The most recent run, if any.
    pub fn last(&self) -> (h: Option<&AgentHistory>)
        ensures
            match h {
                Some(x) => self.histories@.len() > 0 && *x == self.histories@.last(),
                None => self.histories@.len() == 0,
            },
    {
        let n = self.histories.len();
        if n == 0 {
            None
        } else {
            Some(&self.histories[n - 1])
        }
    }

    /// The text of the last result that ended a run, if any.
    pub fn final_result(&self) -> (r: Option<&str>)
        ensures
            opt_str(r) == final_answer(*self),
    {
        let hs = &self.histories;
        let mut k = hs.len();
        assert(hs@.take(k as int) == hs@);
        while k > 0
            invariant
                hs@ == self.histories@,
                k <= hs@.len(),
                last_done_in_histories(hs@) == last_done_in_histories(hs@.take(k as int)),
            decreases k,
        {
            assert(hs@.take(k as int).drop_last() == hs@.take(k - 1));
            match find_last_done_step(&hs[k - 1].steps) {
                Some((s, i)) => {
                    let r = &hs[k - 1].steps[s].results[i];
                    return match &r.extracted_content {
                        Some(c) => Some(c.as_str()),
                        None => None,
                    };
                },
                None => {},
            }
            k = k - 1;
        }
        None
    }

    /// Whether some run ended with an answer.
    pub fn is_done(&self) -> (b: bool)
        ensures
            b == final_answer(*self) is Some,
    {
        self.final_result().is_some()
    }
}

} // verus!
