//! Rendering of the model's plan as a checklist.

use vstd::prelude::*;

use crate::agent_output::PlanItem;
use crate::text::{decimal, decimal_text, push_text};

verus! {

/// `[x]` for a completed item, `[>]` for the current one, `[ ]` otherwise.
pub open spec fn plan_marker(item: PlanItem, current: Option<u32>) -> Seq<char> {
    if item.completed {
        "[x]"@
    } else if current == Some(item.step) {
        "[>]"@
    } else {
        "[ ]"@
    }
}

/// One checklist line: `  {marker} {step} - {description}` and a newline.
pub open spec fn plan_line(item: PlanItem, current: Option<u32>) -> Seq<char> {
    "  "@ + plan_marker(item, current) + " "@ + decimal(item.step as nat) + " - "@
        + item.description@ + "\n"@
}

/// The checklist lines of `items`, in order.
pub open spec fn plan_lines(items: Seq<PlanItem>, current: Option<u32>) -> Seq<char>
    decreases items.len(),
{
    if items.len() == 0 {
        Seq::empty()
    } else {
        plan_lines(items.drop_last(), current) + plan_line(items.last(), current)
    }
}

/// The rendered plan: empty for an empty plan, else `Plan:` and one line per item.
pub open spec fn rendered_plan(items: Seq<PlanItem>, current: Option<u32>) -> Seq<char> {
    if items.len() == 0 {
        Seq::empty()
    } else {
        "Plan:\n"@ + plan_lines(items, current)
    }
}

/// Renders the plan as a checklist, marking completed and current items.
pub fn render_plan(plan: &[PlanItem], current: Option<u32>) -> (out: String)
    ensures
        out@ == rendered_plan(plan@, current),
{
    if plan.len() == 0 {
        return String::new();
    }
    let mut out = String::new();
    push_text(&mut out, "Plan:\n");
    let mut i: usize = 0;
    while i < plan.len()
        invariant
            i <= plan@.len(),
            plan@.len() > 0,
            out@ == "Plan:\n"@ + plan_lines(plan@.take(i as int), current),
        decreases plan@.len() - i,
    {
        let item = &plan[i];
        let ghost before = out@;
        push_text(&mut out, "  ");
        let is_current = match current {
            Some(c) => c == item.step,
            None => false,
        };
        if item.completed {
            push_text(&mut out, "[x]");
        } else if is_current {
            push_text(&mut out, "[>]");
        } else {
            push_text(&mut out, "[ ]");
        }
        push_text(&mut out, " ");
        let step_text = decimal_text(item.step as u64);
        push_text(&mut out, step_text.as_str());
        push_text(&mut out, " - ");
        push_text(&mut out, item.description.as_str());
        push_text(&mut out, "\n");
        assert(plan@.take(i + 1).drop_last() == plan@.take(i as int));
        assert(out@ =~= before + plan_line(plan@[i as int], current));
        i = i + 1;
    }
    assert(plan@.take(i as int) == plan@);
    out
}

/// Each item shows exactly one of three marks: `[x]` exactly when it is
/// completed, `[>]` exactly when it is open and the current item is `Some`
/// of its step, and `[ ]` otherwise. With no current item nothing is `[>]`.
pub proof fn law_plan_marks(item: PlanItem, current: Option<u32>)
    ensures
        (plan_marker(item, current) == "[x]"@) <==> item.completed,
        (plan_marker(item, current) == "[>]"@) <==> (!item.completed && current == Some(item.step)),
        (plan_marker(item, current) == "[ ]"@) <==> (!item.completed && current != Some(item.step)),
        current is None ==> plan_marker(item, current) != "[>]"@,
{
    reveal_strlit("[x]");
    reveal_strlit("[>]");
    reveal_strlit("[ ]");
    assert("[x]"@[1] != "[>]"@[1]);
    assert("[x]"@[1] != "[ ]"@[1]);
    assert("[>]"@[1] != "[ ]"@[1]);
}

proof fn lemma_plan_lines_same(items: Seq<PlanItem>, c1: Option<u32>, c2: Option<u32>)
    requires
        forall|i: int| 0 <= i < items.len() ==> plan_marker(#[trigger] items[i], c1) == plan_marker(items[i], c2),
    ensures
        plan_lines(items, c1) == plan_lines(items, c2),
    decreases items.len(),
{
    if items.len() > 0 {
        let rest = items.drop_last();
        assert forall|i: int| 0 <= i < rest.len() implies plan_marker(#[trigger] rest[i], c1) == plan_marker(rest[i], c2) by {
            assert(rest[i] == items[i]);
        }
        lemma_plan_lines_same(rest, c1, c2);
        assert(items.last() == items[items.len() - 1]);
    }
}

/// Naming a current item changes only that item's line: when no open item
/// has step `c`, the plan renders the same with `Some(c)` as with no current
/// item.
pub proof fn law_current_marks_only_its_item(items: Seq<PlanItem>, c: u32)
    requires
        forall|i: int| 0 <= i < items.len() ==> (#[trigger] items[i]).completed || items[i].step != c,
    ensures
        rendered_plan(items, Some(c)) == rendered_plan(items, None),
{
    assert forall|i: int| 0 <= i < items.len() implies plan_marker(#[trigger] items[i], Some(c)) == plan_marker(items[i], None) by {
        law_plan_marks(items[i], Some(c));
        law_plan_marks(items[i], None);
    }
    lemma_plan_lines_same(items, Some(c), None);
}

} // verus!
