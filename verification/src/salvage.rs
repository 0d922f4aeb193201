//! Recovering actions that a model wrote into its prose instead of its action list.

use vstd::prelude::*;

use crate::agent_output::{ActionInvocation, AgentOutput};
use crate::registry::{ActionRegistry, registered};
use crate::text::chars_of;

verus! {

/// Whether `c` can open a JSON object or array.
pub open spec fn is_json_open(c: char) -> bool {
    c == '{' || c == '['
}

/// Whether `c` can close a JSON object or array.
pub open spec fn is_json_close(c: char) -> bool {
    c == '}' || c == ']'
}

/// The index of the first opening bracket in `s`, if any.
pub open spec fn first_open(s: Seq<char>) -> Option<int> {
    if exists|i: int| 0 <= i < s.len() && is_json_open(s[i]) {
        Some(choose|i: int| 0 <= i < s.len() && is_json_open(s[i]) && forall|k: int| 0 <= k < i ==> !is_json_open(#[trigger] s[k]))
    } else {
        None
    }
}

/// The index of the last closing bracket in `s`, if any.
pub open spec fn last_close(s: Seq<char>) -> Option<int> {
    if exists|i: int| 0 <= i < s.len() && is_json_close(s[i]) {
        Some(choose|i: int| 0 <= i < s.len() && is_json_close(s[i]) && forall|k: int| i < k < s.len() ==> !is_json_close(#[trigger] s[k]))
    } else {
        None
    }
}

/// The stretch from the first opening bracket to the last closing bracket,
/// when the closing one comes after the opening one.
pub open spec fn json_slice_of(s: Seq<char>) -> Option<Seq<char>> {
    match (first_open(s), last_close(s)) {
        (Some(a), Some(b)) => if b > a { Some(s.subrange(a, b + 1)) } else { None },
        _ => None,
    }
}

/// The first JSON-looking slice of `text`: from its first `{` or `[` to its
/// last `}` or `]`, so an action embedded in prose can be parsed.
pub fn json_slice(text: &str) -> (r: Option<&str>)
    ensures
        match r {
            Some(t) => json_slice_of(text@) == Some(t@),
            None => json_slice_of(text@) is None,
        },
{
    let v = chars_of(text);
    let n = v.len();
    let mut a: usize = 0;
    while a < n && !(v[a] == '{' || v[a] == '[')
        invariant
            v@ == text@,
            n == v@.len(),
            a <= n,
            forall|k: int| 0 <= k < a ==> !is_json_open(#[trigger] v@[k]),
        decreases n - a,
    {
        a = a + 1;
    }
    if a == n {
        return None;
    }
    assert(first_open(text@) == Some(a as int)) by {
        let c = choose|i: int| 0 <= i < text@.len() && is_json_open(text@[i]) && forall|k: int| 0 <= k < i ==> !is_json_open(#[trigger] text@[k]);
        assert(is_json_open(text@[a as int]));
        if c < a {
            assert(!is_json_open(v@[c]));
        } else if c > a {
            assert(!is_json_open(text@[a as int]));
        }
    }
    let mut b: usize = n;
    while b > 0 && !(v[b - 1] == '}' || v[b - 1] == ']')
        invariant
            v@ == text@,
            n == v@.len(),
            b <= n,
            forall|k: int| b <= k < n ==> !is_json_close(#[trigger] v@[k]),
        decreases b,
    {
        b = b - 1;
    }
    if b == 0 {
        return None;
    }
    let e = b - 1;
    assert(last_close(text@) == Some(e as int)) by {
        let c = choose|i: int| 0 <= i < text@.len() && is_json_close(text@[i]) && forall|k: int| i < k < text@.len() ==> !is_json_close(#[trigger] text@[k]);
        assert(is_json_close(text@[e as int]));
        if c > e {
            assert(!is_json_close(v@[c]));
        } else if c < e {
            assert(!is_json_close(text@[e as int]));
        }
    }
    if e > a {
        Some(text.substring_char(a, e + 1))
    } else {
        None
    }
}

/// The actions salvaged from a JSON slice. The slice was parsed by the caller
/// three ways: as a whole decision, as a list of actions, and as one action
/// (`None` where that parse failed or no slice was found). A decision with
/// actions wins, then a non-empty list, then a single action; else nothing.
pub fn salvage_actions(
    as_output: Option<AgentOutput>,
    as_list: Option<Vec<ActionInvocation>>,
    as_single: Option<ActionInvocation>,
) -> (acts: Vec<ActionInvocation>)
    ensures
        acts@ == salvaged(as_output, as_list, as_single),
{
    if let Some(out) = as_output {
        if out.action.len() > 0 {
            return out.action;
        }
    }
    if let Some(list) = as_list {
        if list.len() > 0 {
            return list;
        }
    }
    if let Some(a) = as_single {
        let mut v: Vec<ActionInvocation> = Vec::new();
        v.push(a);
        return v;
    }
    Vec::new()
}

/// What `salvage_actions` returns for these parses.
pub open spec fn salvaged(
    as_output: Option<AgentOutput>,
    as_list: Option<Vec<ActionInvocation>>,
    as_single: Option<ActionInvocation>,
) -> Seq<ActionInvocation> {
    if as_output is Some && as_output.unwrap().action@.len() > 0 {
        as_output.unwrap().action@
    } else if as_list is Some && as_list.unwrap()@.len() > 0 {
        as_list.unwrap()@
    } else if as_single is Some {
        seq![as_single.unwrap()]
    } else {
        Seq::empty()
    }
}

/// The actions of `acts` whose names are registered, in order.
pub open spec fn keep_registered(acts: Seq<ActionInvocation>, registry: ActionRegistry) -> Seq<ActionInvocation>
    decreases acts.len(),
{
    if acts.len() == 0 {
        Seq::empty()
    } else if registered(registry, acts.last().name.0@) {
        keep_registered(acts.drop_last(), registry).push(acts.last())
    } else {
        keep_registered(acts.drop_last(), registry)
    }
}

/// Refills an empty action list from `salvaged_actions` (what `salvage_actions`
/// recovered from the next goal), keeping only registered actions; a decision
/// that already has actions, or nothing valid to add, is left unchanged.
pub fn salvage_into(output: &mut AgentOutput, salvaged_actions: Vec<ActionInvocation>, registry: &ActionRegistry)
    ensures
        old(output).action@.len() > 0 ==> *final(output) == *old(output),
        old(output).action@.len() == 0 && keep_registered(salvaged_actions@, *registry).len() == 0
            ==> *final(output) == *old(output),
        old(output).action@.len() == 0 && keep_registered(salvaged_actions@, *registry).len() > 0
            ==> final(output).action@ == keep_registered(salvaged_actions@, *registry)
            && final(output).current_state == old(output).current_state
            && final(output).plan == old(output).plan
            && final(output).current_plan_item == old(output).current_plan_item,
{
    if output.action.len() > 0 {
        return;
    }
    let mut kept: Vec<ActionInvocation> = Vec::new();
    let ghost src = salvaged_actions@;
    let mut rest = salvaged_actions;
    let mut i: usize = 0;
    let n = rest.len();
    while i < n
        invariant
            n == src.len(),
            i <= n,
            rest@ == src,
            kept@ == keep_registered(src.take(i as int), *registry),
        decreases n - i,
    {
        let ghost a = src[i as int];
        assert(src.take(i + 1).drop_last() == src.take(i as int));
        if registry.get(&rest[i].name).is_some() {
            kept.push(rest[i].clone_action());
        }
        i = i + 1;
    }
    assert(src.take(n as int) == src);
    if kept.len() > 0 {
        output.action = kept;
    }
}

/// Whether a parse gave a decision with at least one action.
pub open spec fn has_actions(as_output: Option<AgentOutput>) -> bool {
    as_output is Some && as_output.unwrap().action@.len() > 0
}

/// Salvage keeps what the model wrote whole: a decision with actions gives
/// all of its actions, in order; failing that a non-empty list gives all of
/// it; failing that a single action gives just that one; otherwise nothing.
pub proof fn law_salvage_keeps_whole_lists(
    as_output: Option<AgentOutput>,
    as_list: Option<Vec<ActionInvocation>>,
    as_single: Option<ActionInvocation>,
)
    ensures
        has_actions(as_output) ==> salvaged(as_output, as_list, as_single) == as_output.unwrap().action@
            && salvaged(as_output, as_list, as_single).len() == as_output.unwrap().action@.len(),
        !has_actions(as_output) && as_list is Some && as_list.unwrap()@.len() > 0
            ==> salvaged(as_output, as_list, as_single) == as_list.unwrap()@,
        !has_actions(as_output) && !(as_list is Some && as_list.unwrap()@.len() > 0)
            ==> salvaged(as_output, as_list, as_single).len() == (if as_single is Some { 1int } else { 0int }),
        !has_actions(as_output) && !(as_list is Some && as_list.unwrap()@.len() > 0) && as_single is Some
            ==> salvaged(as_output, as_list, as_single)[0] == as_single.unwrap(),
{
}

} // verus!
