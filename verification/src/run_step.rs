//! The decisions inside one step: which messages to send, which model to
//! trust, and how far to run the decided actions.

use vstd::prelude::*;

use crate::detect_loop::{build_budget_warning, build_loop_nudge, budget_percent, budget_warning_text, loop_nudge_text};
use crate::error::{AppError, error_detail, is_transient};
use crate::history::ActionResult;
use crate::ids::{ActionName, StepId, opt_text};
use crate::llm::{ChatMessage, ChatResponse, MessageView};
use crate::loop_detector::{ActionLoopDetector, record_in_window, tail_repeats};
use crate::text::push_text;

verus! {

/// The messages sent for a step: the prompt, then the loop nudge when the
/// detector sees repetition, then the budget warning near the end of the
/// budget, then the current page's message when the page was read.
pub open spec fn step_messages(
    prompt: Seq<MessageView>,
    actions: Seq<Seq<char>>,
    pages: Seq<Seq<char>>,
    action_threshold: u32,
    stagnation_threshold: u32,
    step: u32,
    max_steps: u32,
    page_message: Option<MessageView>,
) -> Seq<MessageView> {
    let with_warning = nudged_messages(prompt, actions, pages, action_threshold, stagnation_threshold, step, max_steps);
    match page_message {
        Some(m) => with_warning.push(m),
        None => with_warning,
    }
}

/// The prompt with the loop nudge and the budget warning, when due.
pub open spec fn nudged_messages(
    prompt: Seq<MessageView>,
    actions: Seq<Seq<char>>,
    pages: Seq<Seq<char>>,
    action_threshold: u32,
    stagnation_threshold: u32,
    step: u32,
    max_steps: u32,
) -> Seq<MessageView> {
    let a = tail_repeats(actions, action_threshold as nat);
    let p = tail_repeats(pages, stagnation_threshold as nat);
    let with_nudge = if a || p {
        prompt.push(MessageView::System(loop_nudge_text(a, p), false))
    } else {
        prompt
    };
    if max_steps > 0 && budget_percent(step, max_steps) >= 95 {
        with_nudge.push(MessageView::System(budget_warning_text(budget_percent(step, max_steps)), false))
    } else {
        with_nudge
    }
}

/// Adds the loop nudge and the budget warning, when due, and then the
/// current page's message, if any, to a step's prompt.
pub fn prepare_step_messages(
    prompt: Vec<ChatMessage>,
    detector: &ActionLoopDetector,
    step: StepId,
    max_steps: u32,
    page_message: Option<ChatMessage>,
) -> (msgs: Vec<ChatMessage>)
    requires
        detector@.action_threshold > 0 || detector@.actions.len() > 0,
        detector@.stagnation_threshold > 0 || detector@.pages.len() > 0,
        step.0 * 100 <= u32::MAX,
    ensures
        msgs@.map_values(|m: ChatMessage| m@) == step_messages(
            prompt@.map_values(|m: ChatMessage| m@),
            detector@.actions,
            detector@.pages,
            detector@.action_threshold,
            detector@.stagnation_threshold,
            step.0,
            max_steps,
            match page_message { Some(m) => Some(m@), None => None },
        ),
{
    let mut msgs = prompt;
    let ghost p0 = msgs@;
    match build_loop_nudge(detector) {
        Some(n) => {
            msgs.push(n);
        },
        None => {},
    }
    let ghost p1 = msgs@;
    assert(p1.map_values(|m: ChatMessage| m@) =~= (if tail_repeats(detector@.actions, detector@.action_threshold as nat)
        || tail_repeats(detector@.pages, detector@.stagnation_threshold as nat) {
        p0.map_values(|m: ChatMessage| m@).push(p1.last()@)
    } else {
        p0.map_values(|m: ChatMessage| m@)
    }));
    match build_budget_warning(step.0, max_steps) {
        Some(w) => {
            msgs.push(w);
            assert(msgs@.map_values(|m: ChatMessage| m@) =~= p1.map_values(|m: ChatMessage| m@).push(msgs@.last()@));
        },
        None => {},
    }
    let ghost p2 = msgs@;
    match page_message {
        Some(m) => {
            msgs.push(m);
            assert(msgs@.map_values(|m: ChatMessage| m@) =~= p2.map_values(|m: ChatMessage| m@).push(msgs@.last()@));
        },
        None => {},
    }
    msgs
}

/// What to do with the primary model's answer.
#[derive(Debug)]
pub enum LlmRoute {
    /// Use this response.
    Use(ChatResponse),
    /// Ask the fallback model instead.
    TryFallback,
    /// Give up with this error.
    Fail(AppError),
}

/// Routes the primary model's answer: a response is used; an error goes to
/// the fallback model when there is one and the error is transient, and is
/// returned otherwise.
pub fn route_primary_result(result: Result<ChatResponse, AppError>, has_fallback: bool) -> (r: LlmRoute)
    ensures
        match result {
            Ok(resp) => r == LlmRoute::Use(resp),
            Err(e) => if has_fallback && is_transient(e) {
                r == LlmRoute::TryFallback
            } else {
                r == LlmRoute::Fail(e)
            },
        },
{
    match result {
        Ok(resp) => LlmRoute::Use(resp),
        Err(e) => {
            if has_fallback && crate::error::should_switch_to_fallback(&e) {
                LlmRoute::TryFallback
            } else {
                LlmRoute::Fail(e)
            }
        },
    }
}

/// The error text recorded for an action the registry does not know.
pub open spec fn unknown_action_text(name: Seq<char>) -> Seq<char> {
    "unknown action: "@ + name
}

/// Runs a step's actions in order, stopping at the first one that is unknown,
/// fails, finishes the run or ends the step.
pub struct ActionBatch {
    total: usize,
    results: Vec<ActionResult>,
    stopped: bool,
}

/// A batch by its parts.
pub struct BatchView {
    pub total: nat,
    pub next: nat,
    pub results: Seq<ActionResult>,
    pub stopped: bool,
}

impl View for ActionBatch {
    type V = BatchView;

    closed spec fn view(&self) -> BatchView {
        BatchView { total: self.total as nat, next: self.results@.len(), results: self.results@, stopped: self.stopped }
    }
}

/// Whether a result stops the rest of the step.
pub open spec fn stops_step(r: ActionResult, terminates: bool) -> bool {
    terminates || r.is_done || r.error is Some
}

impl ActionBatch {
    #[verifier::type_invariant]
    closed spec fn inv(self) -> bool {
        &&& self.results@.len() <= self.total
    }

    /// A batch over `total` decided actions, none run yet.
    pub(crate) fn new(total: usize) -> (b: Self)
        ensures
            b@.total == total,
            b@.next == 0,
            b@.results.len() == 0,
            !b@.stopped,
    {
        ActionBatch { total, results: Vec::new(), stopped: false }
    }

    /// The index of the next action to run, if the batch goes on.
    pub fn next_action(&self) -> (i: Option<usize>)
        ensures
            match i {
                Some(k) => !self@.stopped && k == self@.next && k < self@.total,
                None => self@.stopped || self@.next >= self@.total,
            },
    {
        proof { use_type_invariant(self); }
        if self.stopped || self.results.len() >= self.total {
            None
        } else {
            Some(self.results.len())
        }
    }

    /// Records that the next action's name is not registered; the batch
    /// stops. The attempt still counts for loop detection: its hash goes to
    /// the detector.
    pub fn record_unknown(&mut self, name: &ActionName, detector: &mut ActionLoopDetector, action_hash: String)
        requires
            !old(self)@.stopped,
            old(self)@.next < old(self)@.total,
        ensures
            final(detector)@.actions == record_in_window(old(detector)@.actions, action_hash@),
            final(detector)@.pages == old(detector)@.pages,
            final(detector)@.action_threshold == old(detector)@.action_threshold,
            final(detector)@.stagnation_threshold == old(detector)@.stagnation_threshold,
            final(self)@.total == old(self)@.total,
            final(self)@.next == old(self)@.next + 1,
            final(self)@.stopped,
            final(self)@.results.len() == old(self)@.results.len() + 1,
            final(self)@.results.drop_last() == old(self)@.results,
            !final(self)@.results.last().is_done,
            opt_text(final(self)@.results.last().error) == Some(unknown_action_text(name.0@)),
            final(self)@.results.last().extracted_content is None,
    {
        proof { use_type_invariant(&*self); }
        detector.record_action(action_hash);
        let mut msg = String::new();
        push_text(&mut msg, "unknown action: ");
        push_text(&mut msg, name.0.as_str());
        let mut results = Vec::new();
        std::mem::swap(&mut results, &mut self.results);
        results.push(ActionResult::err(msg));
        assert(results@.drop_last() == old(self)@.results);
        *self = ActionBatch { total: self.total, results, stopped: true };
    }

    /// Records how the next action's handler ended: its result is kept and
    /// stops the batch when it failed, finished the run or the action ends the
    /// step; a handler error becomes a failed result and stops the batch. The
    /// action's hash goes to the detector.
    pub fn record_outcome(
        &mut self,
        terminates: bool,
        outcome: Result<ActionResult, AppError>,
        detector: &mut ActionLoopDetector,
        action_hash: String,
    )
        requires
            !old(self)@.stopped,
            old(self)@.next < old(self)@.total,
        ensures
            final(detector)@.actions == record_in_window(old(detector)@.actions, action_hash@),
            final(detector)@.pages == old(detector)@.pages,
            final(detector)@.action_threshold == old(detector)@.action_threshold,
            final(detector)@.stagnation_threshold == old(detector)@.stagnation_threshold,
            final(self)@.total == old(self)@.total,
            final(self)@.next == old(self)@.next + 1,
            final(self)@.results.len() == old(self)@.results.len() + 1,
            final(self)@.results.drop_last() == old(self)@.results,
            match outcome {
                Ok(r) => final(self)@.results.last() == r && final(self)@.stopped == stops_step(r, terminates)
                    && (r.error is Some || r.is_done || terminates ==> final(self)@.stopped),
                Err(e) => final(self)@.stopped && !final(self)@.results.last().is_done
                    && opt_text(final(self)@.results.last().error) == Some(error_detail(e))
                    && final(self)@.results.last().extracted_content is None,
            },
    {
        proof { use_type_invariant(&*self); }
        detector.record_action(action_hash);
        let (r, stop) = match outcome {
            Ok(r) => {
                let stop = terminates || r.is_done || r.is_error();
                (r, stop)
            },
            Err(e) => (ActionResult::err(e.message().clone()), true),
        };
        let mut results = Vec::new();
        std::mem::swap(&mut results, &mut self.results);
        results.push(r);
        assert(results@.drop_last() == old(self)@.results);
        *self = ActionBatch { total: self.total, results, stopped: stop };
    }

    /// The results recorded, in order.
    pub fn into_results(self) -> (rs: Vec<ActionResult>)
        ensures
            rs@ == self@.results,
    {
        self.results
    }
}

/// Where a step stands between the model and the actions.
#[derive(Debug, Clone, Copy, PartialEq, Eq, Structural)]
pub enum StepStage {
    /// Waiting for the primary model's answer.
    AskingPrimary,
    /// Waiting for the fallback model's answer.
    AskingFallback,
    /// An answer came; the caller reads the decision from it.
    Deciding,
    /// The step failed; nothing more happens in it.
    Failed,
}

/// What the caller does next with the model's answer.
#[derive(Debug)]
pub enum StepCommand {
    /// Read the decision from this answer, then call `StepFlow::decided`.
    Decide(ChatResponse),
    /// Ask the fallback model the same messages, then call `model_answered`.
    AskFallback,
    /// End the step with this error: no action runs.
    Fail(AppError),
}

/// A step from the model call to its actions: the actions can only be run
/// through the `ActionBatch` that `decided` hands out once a model answered.
pub struct StepFlow {
    stage: StepStage,
    has_fallback: bool,
}

/// A step flow by its parts.
pub struct StepFlowView {
    pub stage: StepStage,
    pub has_fallback: bool,
}

impl View for StepFlow {
    type V = StepFlowView;

    closed spec fn view(&self) -> StepFlowView {
        StepFlowView { stage: self.stage, has_fallback: self.has_fallback }
    }
}

/// The command and the stage after the model's answer `result`.
pub open spec fn after_answer(v: StepFlowView, result: Result<ChatResponse, AppError>) -> (StepCommand, StepStage) {
    match result {
        Ok(r) => (StepCommand::Decide(r), StepStage::Deciding),
        Err(e) => if v.stage == StepStage::AskingPrimary && v.has_fallback && is_transient(e) {
            (StepCommand::AskFallback, StepStage::AskingFallback)
        } else {
            (StepCommand::Fail(e), StepStage::Failed)
        },
    }
}

impl StepFlow {
    /// A step about to ask the primary model; `has_fallback` says whether a
    /// fallback model may be asked.
    pub fn begin(has_fallback: bool) -> (f: Self)
        ensures
            f@.stage == StepStage::AskingPrimary,
            f@.has_fallback == has_fallback,
    {
        StepFlow { stage: StepStage::AskingPrimary, has_fallback }
    }

    /// Takes the answer of the model just asked: an answer is decided on; an
    /// error of the primary model goes to the fallback model when there is one
    /// and the error is transient; any other error fails the step.
    pub fn model_answered(&mut self, result: Result<ChatResponse, AppError>) -> (c: StepCommand)
        requires
            old(self)@.stage == StepStage::AskingPrimary || old(self)@.stage == StepStage::AskingFallback,
        ensures
            (c, final(self)@.stage) == after_answer(old(self)@, result),
            final(self)@.has_fallback == old(self)@.has_fallback,
    {
        let may_fall_back = self.has_fallback && self.stage == StepStage::AskingPrimary;
        match route_primary_result(result, may_fall_back) {
            LlmRoute::Use(r) => {
                self.stage = StepStage::Deciding;
                StepCommand::Decide(r)
            },
            LlmRoute::TryFallback => {
                self.stage = StepStage::AskingFallback;
                StepCommand::AskFallback
            },
            LlmRoute::Fail(e) => {
                self.stage = StepStage::Failed;
                StepCommand::Fail(e)
            },
        }
    }

    /// The decision has `action_count` actions: here is the batch that runs them.
    pub fn decided(self, action_count: usize) -> (b: ActionBatch)
        requires
            self@.stage == StepStage::Deciding,
        ensures
            b@.total == action_count,
            b@.next == 0,
            b@.results.len() == 0,
            !b@.stopped,
    {
        ActionBatch::new(action_count)
    }
}

/// A model error that no fallback may cure fails the step at once: nothing
/// is decided, so no action runs and the loop detector is left as it was.
pub proof fn law_model_failure_ends_step(v: StepFlowView, e: AppError)
    requires
        v.stage == StepStage::AskingPrimary || v.stage == StepStage::AskingFallback,
        !(v.stage == StepStage::AskingPrimary && v.has_fallback && is_transient(e)),
    ensures
        after_answer(v, Err(e)).1 == StepStage::Failed,
        after_answer(v, Err(e)).0 matches StepCommand::Fail(f) && f == e,
{
}

/// A transient error of the primary model, with a fallback model at hand,
/// asks the fallback; its error then fails the step.
pub proof fn law_fallback_asked_once(v: StepFlowView, e1: AppError, e2: AppError)
    requires
        v.stage == StepStage::AskingPrimary,
        v.has_fallback,
        is_transient(e1),
    ensures
        after_answer(v, Err(e1)).1 == StepStage::AskingFallback,
        after_answer(StepFlowView { stage: StepStage::AskingFallback, ..v }, Err(e2)).1 == StepStage::Failed,
{
}

/// A step runs its actions only while they go well: a result that carries an
/// error, a result that finishes the run, or an action that ends the step
/// stops the rest; a plain successful result of an ordinary action lets the
/// next action run.
pub proof fn law_failure_stops_the_step(r: ActionResult, terminates: bool)
    ensures
        r.error is Some ==> stops_step(r, terminates),
        r.is_done ==> stops_step(r, terminates),
        terminates ==> stops_step(r, terminates),
        !terminates && !r.is_done && r.error is None ==> !stops_step(r, terminates),
{
}

} // verus!
