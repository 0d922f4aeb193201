//! The prompt the model receives at each step.

use vstd::prelude::*;

use crate::history::StepRecord;
use crate::llm::{ChatMessage, MessageView, PartView};
use crate::registry::{ActionMetadata, ActionRegistry};
use crate::step_message::{image_parts, render_step_message, step_report_text};
use crate::text::push_text;

verus! {

/// The JSON shape every step's answer must follow.
pub const AGENT_OUTPUT_SHAPE: &'static str = "{\"current_state\":{\"evaluation_previous_goal\":\"...\",\"memory\":\"...\",\"next_goal\":\"...\"},\"action\":[{\"name\":\"<action_name>\",\"parameters\":{...}}]}";

/// The closing instruction of every prompt.
pub const DECIDE_INSTRUCTION: &'static str = "Decide the next action(s). Respond with the JSON object only.";

/// How many past steps the prompt replays.
pub const REPLAYED_STEPS: usize = 4;

/// One catalog entry: name, description, a marker for actions that end the
/// step, and the parameter schema.
pub open spec fn catalog_entry(m: ActionMetadata) -> Seq<char> {
    "- "@ + m.name.0@ + ": "@ + m.description@
        + (if m.terminates_sequence { " [terminates step]"@ } else { Seq::empty() })
        + "\n  parameters_schema: "@ + m.parameters_schema@ + "\n"@
}

/// The entries of `ms`, in order.
pub open spec fn catalog_entries(ms: Seq<ActionMetadata>) -> Seq<char>
    decreases ms.len(),
{
    if ms.len() == 0 {
        Seq::empty()
    } else {
        catalog_entries(ms.drop_last()) + catalog_entry(ms.last())
    }
}

/// The catalog text: every registered action, or a note that there is none.
pub open spec fn catalog_text(ms: Seq<ActionMetadata>) -> Seq<char> {
    if ms.len() == 0 {
        "(no actions registered)\n"@
    } else {
        catalog_entries(ms)
    }
}

/// Lists the registered actions for the prompt.
pub fn render_action_catalog(registry: &ActionRegistry) -> (out: String)
    ensures
        out@ == catalog_text(registry@),
{
    let mut out = String::new();
    let n = registry.len();
    if n == 0 {
        push_text(&mut out, "(no actions registered)\n");
        return out;
    }
    let mut i: usize = 0;
    while i < n
        invariant
            n == registry@.len(),
            i <= n,
            out@ == catalog_entries(registry@.take(i as int)),
        decreases n - i,
    {
        let m = registry.entry(i);
        let ghost before = out@;
        push_text(&mut out, "- ");
        push_text(&mut out, m.name.0.as_str());
        push_text(&mut out, ": ");
        push_text(&mut out, m.description.as_str());
        if m.terminates_sequence {
            push_text(&mut out, " [terminates step]");
        }
        push_text(&mut out, "\n  parameters_schema: ");
        push_text(&mut out, m.parameters_schema.as_str());
        push_text(&mut out, "\n");
        assert(registry@.take(i + 1).drop_last() == registry@.take(i as int));
        assert(out@ =~= before + catalog_entry(registry@[i as int]));
        i = i + 1;
    }
    assert(registry@.take(n as int) == registry@);
    out
}

/// The system prompt: the task, the answer shape, the catalog and the rules.
pub open spec fn system_prompt(task: Seq<char>, catalog: Seq<char>) -> Seq<char> {
    "You are a browsing agent. Your task: "@ + task
        + "\n\nYou drive a real browser via the actions listed below. Each step you must emit ONE JSON object matching this exact shape (no prose, no markdown fences):\n"@
        + AGENT_OUTPUT_SHAPE@ + "\n\nAvailable actions:\n"@ + catalog
        + "\n\nRules:\n- Use only action names from the catalog above. Match parameters_schema exactly.\n- Plan one or two atomic steps at a time; the runtime executes them in order and feeds results back on the next turn.\n- Call the `done` action when the task is complete; pass the final answer in its parameters. Returning an empty action list is treated as a failure."@
}

/// The messages replaying one past step: the model's decision as JSON (when
/// it serialized) and the report of its results (when any ran).
pub open spec fn replay_messages(step: StepRecord, decision_json: Option<String>) -> Seq<MessageView> {
    (match decision_json {
        Some(j) => seq![MessageView::Assistant(j@)],
        None => Seq::empty(),
    }) + (if step.results@.len() > 0 {
        seq![MessageView::User(seq![PartView::Text(step_report_text(step))] + image_parts(step.results@))]
    } else {
        Seq::empty()
    })
}

/// The replay of `steps`, in order, each with its decision's JSON.
pub open spec fn replay_all(steps: Seq<StepRecord>, decisions: Seq<Option<String>>) -> Seq<MessageView>
    decreases steps.len(),
{
    if steps.len() == 0 || decisions.len() != steps.len() {
        Seq::empty()
    } else {
        replay_all(steps.drop_last(), decisions.drop_last()) + replay_messages(steps.last(), decisions.last())
    }
}

/// Where the replayed suffix of a history of `n` steps begins.
pub open spec fn replay_start(n: nat) -> int {
    if n > REPLAYED_STEPS { n - REPLAYED_STEPS } else { 0 }
}

/// The full prompt: the cached system prompt, the last `REPLAYED_STEPS`
/// steps replayed, and the closing instruction.
pub open spec fn prompt_messages(
    task: Seq<char>,
    catalog: Seq<char>,
    history: Seq<StepRecord>,
    decisions: Seq<Option<String>>,
) -> Seq<MessageView> {
    let s = replay_start(history.len());
    seq![MessageView::System(system_prompt(task, catalog), true)]
        + replay_all(history.subrange(s, history.len() as int), decisions.subrange(s, history.len() as int))
        + seq![MessageView::User(seq![PartView::Text(DECIDE_INSTRUCTION@)])]
}

/// Builds the step prompt. `decisions[i]` is the JSON text of
/// `history[i].output` (`None` where it did not serialize).
pub fn build_prompt(
    task: &str,
    history: &[StepRecord],
    decisions: &[Option<String>],
    registry: &ActionRegistry,
) -> (msgs: Vec<ChatMessage>)
    requires
        decisions@.len() == history@.len(),
    ensures
        msgs@.map_values(|m: ChatMessage| m@) == prompt_messages(task@, catalog_text(registry@), history@, decisions@),
{
    let catalog = render_action_catalog(registry);
    let mut system = String::new();
    push_text(&mut system, "You are a browsing agent. Your task: ");
    push_text(&mut system, task);
    push_text(&mut system, "\n\nYou drive a real browser via the actions listed below. Each step you must emit ONE JSON object matching this exact shape (no prose, no markdown fences):\n");
    push_text(&mut system, AGENT_OUTPUT_SHAPE);
    push_text(&mut system, "\n\nAvailable actions:\n");
    push_text(&mut system, catalog.as_str());
    push_text(&mut system, "\n\nRules:\n- Use only action names from the catalog above. Match parameters_schema exactly.\n- Plan one or two atomic steps at a time; the runtime executes them in order and feeds results back on the next turn.\n- Call the `done` action when the task is complete; pass the final answer in its parameters. Returning an empty action list is treated as a failure.");
    assert(system@ =~= system_prompt(task@, catalog_text(registry@)));
    let mut out: Vec<ChatMessage> = Vec::new();
    out.push(ChatMessage::system_cached(system));
    let n = history.len();
    let start = if n > REPLAYED_STEPS { n - REPLAYED_STEPS } else { 0 };
    let ghost head = out@.map_values(|m: ChatMessage| m@);
    let mut i = start;
    while i < n
        invariant
            n == history@.len(),
            decisions@.len() == n,
            start == replay_start(n as nat),
            start <= i <= n,
            out@.map_values(|m: ChatMessage| m@) == head + replay_all(
                history@.subrange(start as int, i as int),
                decisions@.subrange(start as int, i as int),
            ),
        decreases n - i,
    {
        let ghost before = out@;
        let step = &history[i];
        match &decisions[i] {
            Some(j) => {
                let mut text = String::new();
                push_text(&mut text, j.as_str());
                out.push(ChatMessage::assistant_text(text));
            },
            None => {},
        }
        let ghost mid = out@;
        match render_step_message(step) {
            Some(m) => {
                out.push(m);
            },
            None => {},
        }
        assert(history@.subrange(start as int, i + 1).drop_last() == history@.subrange(start as int, i as int));
        assert(decisions@.subrange(start as int, i + 1).drop_last() == decisions@.subrange(start as int, i as int));
        assert(out@.map_values(|m: ChatMessage| m@) =~= before.map_values(|m: ChatMessage| m@)
            + replay_messages(history@[i as int], decisions@[i as int]));
        i = i + 1;
    }
    let mut closing = String::new();
    push_text(&mut closing, DECIDE_INSTRUCTION);
    let ghost body = out@;
    let last = ChatMessage::user_text(closing);
    assert(last@ == MessageView::User(seq![PartView::Text(DECIDE_INSTRUCTION@)]));
    out.push(last);
    assert(head =~= seq![MessageView::System(system_prompt(task@, catalog_text(registry@)), true)]);
    assert(out@.map_values(|m: ChatMessage| m@) =~= body.map_values(|m: ChatMessage| m@).push(last@));
    assert(out@.map_values(|m: ChatMessage| m@) =~= prompt_messages(task@, catalog_text(registry@), history@, decisions@));
    out
}

/// The message reporting a step's results, as the prompt replays it.
pub open spec fn result_message(step: StepRecord) -> MessageView {
    MessageView::User(seq![PartView::Text(step_report_text(step))] + image_parts(step.results@))
}

/// Every step decided something that serialized and ran at least one action.
pub open spec fn fully_recorded(history: Seq<StepRecord>, decisions: Seq<Option<String>>) -> bool {
    &&& decisions.len() == history.len()
    &&& forall|i: int| 0 <= i < history.len() ==> (#[trigger] decisions[i]) is Some && history[i].results@.len() > 0
}

proof fn lemma_replay_fully_recorded(steps: Seq<StepRecord>, ds: Seq<Option<String>>)
    requires
        fully_recorded(steps, ds),
    ensures
        replay_all(steps, ds).len() == 2 * steps.len(),
        forall|j: int| 0 <= j < steps.len() ==> replay_all(steps, ds)[2 * j] == MessageView::Assistant(
            (#[trigger] ds[j]).unwrap()@) && replay_all(steps, ds)[2 * j + 1] == result_message(steps[j]),
    decreases steps.len(),
{
    if steps.len() > 0 {
        let s1 = steps.drop_last();
        let d1 = ds.drop_last();
        assert(fully_recorded(s1, d1)) by {
            assert forall|i: int| 0 <= i < s1.len() implies (#[trigger] d1[i]) is Some && s1[i].results@.len() > 0 by {
                assert(d1[i] == ds[i]);
                assert(s1[i] == steps[i]);
            }
        }
        lemma_replay_fully_recorded(s1, d1);
        let last = steps.len() - 1;
        assert(ds[last] is Some && steps[last].results@.len() > 0);
        let tail = replay_messages(steps.last(), ds.last());
        assert(tail =~= seq![MessageView::Assistant(ds[last].unwrap()@), result_message(steps[last])]);
        assert forall|j: int| 0 <= j < steps.len() implies replay_all(steps, ds)[2 * j] == MessageView::Assistant(
            (#[trigger] ds[j]).unwrap()@) && replay_all(steps, ds)[2 * j + 1] == result_message(steps[j]) by {
            if j < last {
                assert(d1[j] == ds[j]);
                assert(s1[j] == steps[j]);
            }
        }
    }
}

/// The prompt replays the most recent steps, up to four: after the system
/// prompt come, for each of the last `min(n, 4)` of `n` fully recorded steps
/// in order, its decision and then its results, and last the closing
/// instruction. In particular a history of one to four steps is replayed
/// whole.
pub proof fn law_prompt_replays_recent_steps(
    task: Seq<char>,
    catalog: Seq<char>,
    history: Seq<StepRecord>,
    decisions: Seq<Option<String>>,
)
    requires
        fully_recorded(history, decisions),
    ensures
        ({
            let n = history.len() as int;
            let k = if n < 4 { n } else { 4 };
            let msgs = prompt_messages(task, catalog, history, decisions);
            &&& msgs.len() == 2 + 2 * k
            &&& msgs[0] == MessageView::System(system_prompt(task, catalog), true)
            &&& msgs[msgs.len() - 1] == MessageView::User(seq![PartView::Text(DECIDE_INSTRUCTION@)])
            &&& forall|i: int| n - k <= i < n ==> msgs[1 + 2 * (i - (n - k))] == MessageView::Assistant(
                (#[trigger] decisions[i]).unwrap()@) && msgs[2 + 2 * (i - (n - k))] == result_message(history[i])
        }),
{
    let n = history.len() as int;
    let k = if n < 4 { n } else { 4 };
    let st = replay_start(history.len());
    assert(st == n - k);
    let hs = history.subrange(st, n);
    let ds = decisions.subrange(st, n);
    assert(fully_recorded(hs, ds)) by {
        assert forall|i: int| 0 <= i < hs.len() implies (#[trigger] ds[i]) is Some && hs[i].results@.len() > 0 by {
            assert(ds[i] == decisions[st + i]);
            assert(hs[i] == history[st + i]);
        }
    }
    lemma_replay_fully_recorded(hs, ds);
    let msgs = prompt_messages(task, catalog, history, decisions);
    assert forall|i: int| n - k <= i < n implies msgs[1 + 2 * (i - (n - k))] == MessageView::Assistant(
        (#[trigger] decisions[i]).unwrap()@) && msgs[2 + 2 * (i - (n - k))] == result_message(history[i]) by {
        let j = i - st;
        assert(ds[j] == decisions[i]);
        assert(hs[j] == history[i]);
    }
}

} // verus!
