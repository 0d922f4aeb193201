//! System messages that steer a stuck or slow agent.

use vstd::prelude::*;

use crate::llm::{ChatMessage, MessageView};
use crate::loop_detector::{ActionLoopDetector, tail_repeats};
use crate::text::{decimal, decimal_text, push_text};

verus! {

/// The warning given when one action keeps repeating.
pub const REPEATED_ACTION_NOTE: &'static str = "Heads up: the same action repeated several times. Try a different element or strategy.";

/// The warning given when the page stops changing.
pub const STAGNANT_PAGE_NOTE: &'static str = "Heads up: the page state has not changed for several steps. Reassess your approach.";

/// The re-prompt issued after a step whose action list was empty.
pub const EMPTY_ACTION_NOTE: &'static str = "Your previous response had NO action \u{2014} that is not allowed. You MUST emit exactly one action this step. If the record you were searching for is genuinely not found, call the `done` action with a not-found result (its `text` set to a JSON object such as {\"found\": false}). Do NOT put your decision only in next_goal, memory, or the plan.";

/// The nudge text for the detected conditions, the two notes joined by a blank line.
pub open spec fn loop_nudge_text(action_loop: bool, stagnant: bool) -> Seq<char> {
    if action_loop && stagnant {
        REPEATED_ACTION_NOTE@ + "\n\n"@ + STAGNANT_PAGE_NOTE@
    } else if action_loop {
        REPEATED_ACTION_NOTE@
    } else {
        STAGNANT_PAGE_NOTE@
    }
}

/// A system nudge when the detector sees a repeated action or a stagnant page.
pub fn build_loop_nudge(detector: &ActionLoopDetector) -> (m: Option<ChatMessage>)
    requires
        detector@.action_threshold > 0 || detector@.actions.len() > 0,
        detector@.stagnation_threshold > 0 || detector@.pages.len() > 0,
    ensures
        ({
            let a = tail_repeats(detector@.actions, detector@.action_threshold as nat);
            let p = tail_repeats(detector@.pages, detector@.stagnation_threshold as nat);
            match m {
                None => !a && !p,
                Some(msg) => (a || p) && msg@ == MessageView::System(loop_nudge_text(a, p), false),
            }
        }),
{
    let a = detector.action_loop_detected();
    let p = detector.page_stagnation_detected();
    if !a && !p {
        return None;
    }
    let mut text = String::new();
    if a {
        push_text(&mut text, REPEATED_ACTION_NOTE);
    }
    if a && p {
        push_text(&mut text, "\n\n");
    }
    if p {
        push_text(&mut text, STAGNANT_PAGE_NOTE);
    }
    assert(text@ =~= loop_nudge_text(a, p));
    Some(ChatMessage::system(text))
}

/// The step budget used so far, in whole percent.
pub open spec fn budget_percent(step: u32, max_steps: u32) -> nat {
    ((step * 100) / (max_steps as int)) as nat
}

/// The budget warning's text.
pub open spec fn budget_warning_text(pct: nat) -> Seq<char> {
    "You are at "@ + decimal(pct)
        + "% of your step budget. Wrap up: call done if you have an answer, or pivot decisively."@
}

/// A system warning once `step` reaches 95% of `max_steps`.
pub fn build_budget_warning(step: u32, max_steps: u32) -> (m: Option<ChatMessage>)
    requires
        step * 100 <= u32::MAX,
    ensures
        match m {
            None => max_steps == 0 || budget_percent(step, max_steps) < 95,
            Some(msg) => max_steps > 0 && budget_percent(step, max_steps) >= 95
                && msg@ == MessageView::System(budget_warning_text(budget_percent(step, max_steps)), false),
        },
{
    if max_steps == 0 {
        return None;
    }
    let pct = (step * 100) / max_steps;
    if pct < 95 {
        return None;
    }
    let mut text = String::new();
    push_text(&mut text, "You are at ");
    let p = decimal_text(pct as u64);
    push_text(&mut text, p.as_str());
    push_text(&mut text, "% of your step budget. Wrap up: call done if you have an answer, or pivot decisively.");
    assert(text@ =~= budget_warning_text(budget_percent(step, max_steps)));
    Some(ChatMessage::system(text))
}

/// A one-time re-prompt after a step whose action list was empty.
pub fn build_empty_action_nudge(prev_empty: bool) -> (m: Option<ChatMessage>)
    ensures
        match m {
            None => !prev_empty,
            Some(msg) => prev_empty && msg@ == MessageView::System(EMPTY_ACTION_NOTE@, false),
        },
{
    if !prev_empty {
        return None;
    }
    let mut text = String::new();
    push_text(&mut text, EMPTY_ACTION_NOTE);
    Some(ChatMessage::system(text))
}

/// The loop nudge names exactly what the detector saw: it opens with the
/// repeated-action note exactly when an action repeats, it closes with the
/// stagnant-page note exactly when the page stopped changing, and when both
/// hold the two notes stand in that order, a blank line between them.
pub proof fn law_loop_nudge_names_what_it_saw(action_loop: bool, stagnant: bool)
    requires
        action_loop || stagnant,
    ensures
        REPEATED_ACTION_NOTE@.is_prefix_of(loop_nudge_text(action_loop, stagnant)) <==> action_loop,
        STAGNANT_PAGE_NOTE@.is_suffix_of(loop_nudge_text(action_loop, stagnant)) <==> stagnant,
        loop_nudge_text(action_loop, stagnant) == (if action_loop { REPEATED_ACTION_NOTE@ } else { Seq::empty() })
            + (if action_loop && stagnant { "\n\n"@ } else { Seq::empty() })
            + (if stagnant { STAGNANT_PAGE_NOTE@ } else { Seq::empty() }),
{
    reveal_strlit("Heads up: the same action repeated several times. Try a different element or strategy.");
    reveal_strlit("Heads up: the page state has not changed for several steps. Reassess your approach.");
    reveal_strlit("\n\n");
    let r = REPEATED_ACTION_NOTE@;
    let st = STAGNANT_PAGE_NOTE@;
    let t = loop_nudge_text(action_loop, stagnant);
    assert(r.len() == 86);
    assert(st.len() == 83);
    let e = Seq::<char>::empty();
    if action_loop && stagnant {
        assert(t.take(86) =~= r);
        assert(t.skip(t.len() - 83) =~= st);
        assert(t =~= r + "\n\n"@ + st);
    } else if action_loop {
        assert(t.take(86) =~= r);
        assert(t.skip(t.len() - 83)[81] == r[84]);
        assert(r[84] != st[81]);
        assert(t =~= r + e + e);
    } else {
        assert(t.skip(0) =~= st);
        assert(t =~= e + e + st);
    }
}

} // verus!
