//! Recovering the model's decision from its raw response.

use vstd::prelude::*;

use crate::agent_output::{ActionInvocation, AgentBrain, AgentOutput};
use crate::error::AppError;
use crate::ids::ActionName;
use crate::llm::{ChatResponse, ToolCall};
use crate::text::chars_of;

verus! {

/// Unicode white space, as `char::is_whitespace` defines it.
pub open spec fn is_ws(c: char) -> bool {
    let u = c as u32;
    ||| 9 <= u <= 13
    ||| u == 32
    ||| u == 0x85
    ||| u == 0xA0
    ||| u == 0x1680
    ||| 0x2000 <= u <= 0x200A
    ||| u == 0x2028
    ||| u == 0x2029
    ||| u == 0x202F
    ||| u == 0x205F
    ||| u == 0x3000
}

/// Whether `c` is white space (`char::is_whitespace`).
pub fn is_whitespace(c: char) -> (b: bool)
    ensures
        b == is_ws(c),
{
    let u = c as u32;
    (9 <= u && u <= 13) || u == 32 || u == 0x85 || u == 0xA0 || u == 0x1680 || (0x2000 <= u && u
        <= 0x200A) || u == 0x2028 || u == 0x2029 || u == 0x202F || u == 0x205F || u == 0x3000
}

/// The first index at or after `i` (and before `end`) that is not white space, else `end`.
pub open spec fn skip_ws_fwd(s: Seq<char>, i: int, end: int) -> int
    decreases end - i,
{
    if i < end && is_ws(s[i]) {
        skip_ws_fwd(s, i + 1, end)
    } else {
        i
    }
}

/// The first index at or after `i` (and before `end`) that is not `ch`, else `end`.
pub open spec fn skip_char_fwd(s: Seq<char>, i: int, end: int, ch: char) -> int
    decreases end - i,
{
    if i < end && s[i] == ch {
        skip_char_fwd(s, i + 1, end, ch)
    } else {
        i
    }
}

/// Moves the end `j` back over white space, not below `start`.
pub open spec fn skip_ws_back(s: Seq<char>, start: int, j: int) -> int
    decreases j - start,
{
    if j > start && is_ws(s[j - 1]) {
        skip_ws_back(s, start, j - 1)
    } else {
        j
    }
}

/// Moves the end `j` back over `ch`, not below `start`.
pub open spec fn skip_char_back(s: Seq<char>, start: int, j: int, ch: char) -> int
    decreases j - start,
{
    if j > start && s[j - 1] == ch {
        skip_char_back(s, start, j - 1, ch)
    } else {
        j
    }
}

/// Whether `s[i..end]` begins with `tag`.
pub open spec fn starts_at(s: Seq<char>, i: int, end: int, tag: Seq<char>) -> bool {
    i + tag.len() <= end && s.subrange(i, i + tag.len()) == tag
}

/// Whether `s[start..j]` ends with `tag`.
pub open spec fn ends_at(s: Seq<char>, start: int, j: int, tag: Seq<char>) -> bool {
    start + tag.len() <= j && s.subrange(j - tag.len(), j) == tag
}

/// Three backticks.
pub open spec fn fence() -> Seq<char> {
    seq!['`', '`', '`']
}

/// A fence tagged `json`, `JSON` or `Json`.
pub open spec fn fence_tag(variant: int) -> Seq<char> {
    if variant == 0 {
        fence() + seq!['j', 's', 'o', 'n']
    } else if variant == 1 {
        fence() + seq!['J', 'S', 'O', 'N']
    } else {
        fence() + seq!['J', 's', 'o', 'n']
    }
}

/// Where the body starts once an opening fence at `a` (before `b`) is removed:
/// the first of `json`, `JSON`, `Json` or a bare fence that matches, if any.
pub open spec fn after_open_fence(s: Seq<char>, a: int, b: int) -> int {
    if starts_at(s, a, b, fence_tag(0)) {
        a + 7
    } else if starts_at(s, a, b, fence_tag(1)) {
        a + 7
    } else if starts_at(s, a, b, fence_tag(2)) {
        a + 7
    } else if starts_at(s, a, b, fence()) {
        a + 3
    } else {
        a
    }
}

/// The character range of the code-fence body of `s`: trim `s`; drop an
/// opening fence (tagged `json`, `JSON`, `Json` or bare), then newlines and
/// white space; drop a closing fence, then white space and newlines; trim again.
pub open spec fn fence_body_range(s: Seq<char>) -> (int, int) {
    let n = s.len() as int;
    let a0 = skip_ws_fwd(s, 0, n);
    let b0 = skip_ws_back(s, a0, n);
    let a1 = after_open_fence(s, a0, b0);
    let a2 = skip_char_fwd(s, a1, b0, '\n');
    let a3 = skip_ws_fwd(s, a2, b0);
    let b1 = if ends_at(s, a3, b0, fence()) { b0 - 3 } else { b0 };
    let b2 = skip_ws_back(s, a3, b1);
    let b3 = skip_char_back(s, a3, b2, '\n');
    let a4 = skip_ws_fwd(s, a3, b3);
    let b4 = skip_ws_back(s, a4, b3);
    (a4, b4)
}

/// The code-fence body of `s`.
pub open spec fn fence_body(s: Seq<char>) -> Seq<char> {
    let (a, b) = fence_body_range(s);
    s.subrange(a, b)
}

fn fwd_ws(s: &Vec<char>, i: usize, end: usize) -> (r: usize)
    requires
        i <= end <= s@.len(),
    ensures
        r == skip_ws_fwd(s@, i as int, end as int),
        i <= r <= end,
    decreases end - i,
{
    if i < end && is_whitespace(s[i]) {
        fwd_ws(s, i + 1, end)
    } else {
        i
    }
}

fn fwd_char(s: &Vec<char>, i: usize, end: usize, ch: char) -> (r: usize)
    requires
        i <= end <= s@.len(),
    ensures
        r == skip_char_fwd(s@, i as int, end as int, ch),
        i <= r <= end,
    decreases end - i,
{
    if i < end && s[i] == ch {
        fwd_char(s, i + 1, end, ch)
    } else {
        i
    }
}

fn back_ws(s: &Vec<char>, start: usize, j: usize) -> (r: usize)
    requires
        start <= j <= s@.len(),
    ensures
        r == skip_ws_back(s@, start as int, j as int),
        start <= r <= j,
    decreases j - start,
{
    if j > start && is_whitespace(s[j - 1]) {
        back_ws(s, start, j - 1)
    } else {
        j
    }
}

fn back_char(s: &Vec<char>, start: usize, j: usize, ch: char) -> (r: usize)
    requires
        start <= j <= s@.len(),
    ensures
        r == skip_char_back(s@, start as int, j as int, ch),
        start <= r <= j,
    decreases j - start,
{
    if j > start && s[j - 1] == ch {
        back_char(s, start, j - 1, ch)
    } else {
        j
    }
}

fn matches_at(s: &Vec<char>, i: usize, end: usize, tag: &Vec<char>) -> (b: bool)
    requires
        i <= end <= s@.len(),
    ensures
        b == starts_at(s@, i as int, end as int, tag@),
{
    if tag.len() > end - i {
        return false;
    }
    let mut k: usize = 0;
    while k < tag.len()
        invariant
            i + tag@.len() <= end <= s@.len(),
            k <= tag@.len(),
            forall|m: int| 0 <= m < k ==> s@[i + m] == tag@[m],
        decreases tag@.len() - k,
    {
        if s[i + k] != tag[k] {
            assert(s@.subrange(i as int, i + tag@.len())[k as int] != tag@[k as int]);
            return false;
        }
        k = k + 1;
    }
    assert(s@.subrange(i as int, i + tag@.len()) =~= tag@);
    true
}

fn ends_with_fence(s: &Vec<char>, start: usize, j: usize) -> (b: bool)
    requires
        start <= j <= s@.len(),
    ensures
        b == ends_at(s@, start as int, j as int, fence()),
{
    if j - start < 3 {
        return false;
    }
    let r = s[j - 3] == '`' && s[j - 2] == '`' && s[j - 1] == '`';
    if r {
        assert(s@.subrange(j - 3, j as int) =~= fence());
    } else {
        assert(s@.subrange(j - 3, j as int) != fence()) by {
            if s@.subrange(j - 3, j as int) == fence() {
                assert(s@.subrange(j - 3, j as int)[0] == '`');
                assert(s@.subrange(j - 3, j as int)[1] == '`');
                assert(s@.subrange(j - 3, j as int)[2] == '`');
            }
        }
    }
    r
}

fn fence_chars(variant: usize) -> (v: Vec<char>)
    requires
        variant <= 3,
    ensures
        variant < 3 ==> v@ == fence_tag(variant as int),
        variant == 3 ==> v@ == fence(),
{
    let mut v: Vec<char> = Vec::new();
    v.push('`');
    v.push('`');
    v.push('`');
    if variant == 0 {
        v.push('j');
        v.push('s');
        v.push('o');
        v.push('n');
    } else if variant == 1 {
        v.push('J');
        v.push('S');
        v.push('O');
        v.push('N');
    } else if variant == 2 {
        v.push('J');
        v.push('s');
        v.push('o');
        v.push('n');
    }
    assert(variant == 0 ==> v@ =~= fence_tag(0));
    assert(variant == 1 ==> v@ =~= fence_tag(1));
    assert(variant == 2 ==> v@ =~= fence_tag(2));
    assert(variant == 3 ==> v@ =~= fence());
    v
}

fn body_range(s: &Vec<char>) -> (r: (usize, usize))
    ensures
        r.0 <= r.1 <= s@.len(),
        (r.0 as int, r.1 as int) == fence_body_range(s@),
{
    let n = s.len();
    let a0 = fwd_ws(s, 0, n);
    let b0 = back_ws(s, a0, n);
    let a1 = if matches_at(s, a0, b0, &fence_chars(0)) {
        a0 + 7
    } else if matches_at(s, a0, b0, &fence_chars(1)) {
        a0 + 7
    } else if matches_at(s, a0, b0, &fence_chars(2)) {
        a0 + 7
    } else if matches_at(s, a0, b0, &fence_chars(3)) {
        a0 + 3
    } else {
        a0
    };
    let a2 = fwd_char(s, a1, b0, '\n');
    let a3 = fwd_ws(s, a2, b0);
    let b1 = if ends_with_fence(s, a3, b0) { b0 - 3 } else { b0 };
    let b2 = back_ws(s, a3, b1);
    let b3 = back_char(s, a3, b2, '\n');
    let a4 = fwd_ws(s, a3, b3);
    let b4 = back_ws(s, a4, b3);
    (a4, b4)
}

/// The body of a markdown code fence around `s` (or `s` trimmed when unfenced).
pub fn strip_code_fence(s: &str) -> (r: &str)
    ensures
        r@ == fence_body(s@),
{
    let v = chars_of(s);
    let (a, b) = body_range(&v);
    s.substring_char(a, b)
}

/// The text to parse again once the raw response failed to parse: the fence
/// body, offered only when it is non-empty and starts past the first character
/// of `content` (a body that starts where `content` starts is not retried).
pub fn fence_retry_text(content: &str) -> (r: Option<&str>)
    ensures
        match r {
            Some(t) => fence_body_range(content@).0 != 0
                && fence_body_range(content@).0 < fence_body_range(content@).1
                && t@ == fence_body(content@),
            None => fence_body_range(content@).0 == 0
                || fence_body_range(content@).0 >= fence_body_range(content@).1,
        },
{
    let v = chars_of(content);
    let (a, b) = body_range(&v);
    if a != 0 && a < b {
        Some(content.substring_char(a, b))
    } else {
        None
    }
}

/// The actions requested through native tool calls, in order.
pub fn tool_calls_to_actions(calls: &[ToolCall]) -> (acts: Vec<ActionInvocation>)
    ensures
        acts@.len() == calls@.len(),
        forall|i: int|
            0 <= i < calls@.len() ==> #[trigger] acts@[i].name.0@ == calls@[i].name@
                && acts@[i].parameters == calls@[i].arguments,
{
    let mut acts: Vec<ActionInvocation> = Vec::new();
    let mut i: usize = 0;
    while i < calls.len()
        invariant
            i <= calls@.len(),
            acts@.len() == i,
            forall|k: int|
                0 <= k < i ==> #[trigger] acts@[k].name.0@ == calls@[k].name@
                    && acts@[k].parameters == calls@[k].arguments,
        decreases calls@.len() - i,
    {
        let c = &calls[i];
        acts.push(ActionInvocation { name: ActionName(c.name.clone()), parameters: c.arguments.clone() });
        i = i + 1;
    }
    acts
}

/// The decision read when the response holds no parseable JSON: no plan, the
/// response text as the next goal, and the native tool calls as the actions.
pub open spec fn is_fallback_output(response: ChatResponse, out: AgentOutput) -> bool {
    &&& out.current_state.evaluation_previous_goal@ == Seq::<char>::empty()
    &&& out.current_state.memory@ == Seq::<char>::empty()
    &&& out.current_state.next_goal@ == match response.content {
        Some(c) => c@,
        None => Seq::<char>::empty(),
    }
    &&& out.action@.len() == response.tool_calls@.len()
    &&& forall|i: int|
        0 <= i < response.tool_calls@.len() ==> #[trigger] out.action@[i].name.0@
            == response.tool_calls@[i].name@ && out.action@[i].parameters
            == response.tool_calls@[i].arguments
    &&& out.plan is None
    &&& out.current_plan_item is None
}

/// The model's decision for a step. `parsed_raw` is the response text parsed
/// as a decision; `parsed_fenced` is the text from `fence_retry_text` parsed
/// likewise (the caller parses; `None` where parsing failed or did not apply).
/// The raw parse wins, then the fenced one, else the decision is rebuilt from
/// the text and the native tool calls. It never fails.
pub fn parse_agent_output(
    response: &ChatResponse,
    parsed_raw: Option<AgentOutput>,
    parsed_fenced: Option<AgentOutput>,
) -> (r: Result<AgentOutput, AppError>)
    ensures
        r is Ok,
        parsed_raw is Some ==> r == Ok::<AgentOutput, AppError>(parsed_raw.unwrap()),
        parsed_raw is None && parsed_fenced is Some ==> r == Ok::<AgentOutput, AppError>(parsed_fenced.unwrap()),
        parsed_raw is None && parsed_fenced is None ==> is_fallback_output(*response, r.unwrap()),
{
    if let Some(out) = parsed_raw {
        return Ok(out);
    }
    if let Some(out) = parsed_fenced {
        return Ok(out);
    }
    let next_goal = match &response.content {
        Some(c) => c.clone(),
        None => String::new(),
    };
    Ok(AgentOutput {
        current_state: AgentBrain {
            evaluation_previous_goal: String::new(),
            memory: String::new(),
            next_goal,
        },
        action: tool_calls_to_actions(response.tool_calls.as_slice()),
        plan: None,
        current_plan_item: None,
    })
}


/// An opening fence: tagged `json`, `JSON` or `Json` (variants 0 to 2), or bare.
pub open spec fn opening_fence(variant: int) -> Seq<char> {
    if 0 <= variant < 3 {
        fence_tag(variant)
    } else {
        fence()
    }
}

/// A JSON object the model wrapped in a markdown code fence, with any of the
/// recognised opening tags or none, is recovered exactly, and it is offered
/// for a second parse (its body does not start at the first character).
pub proof fn law_fenced_object_recovered(variant: int, body: Seq<char>)
    requires
        body.len() > 0,
        body[0] == '{',
        body.last() == '}',
    ensures
        ({
            let s = opening_fence(variant) + seq!['\n'] + body + seq!['\n'] + fence();
            &&& fence_body(s) == body
            &&& fence_body_range(s).0 == opening_fence(variant).len() + 1
        }),
{
    let open = opening_fence(variant);
    let s = open + seq!['\n'] + body + seq!['\n'] + fence();
    let n = s.len() as int;
    let l = open.len() as int;
    let m = body.len() as int;
    assert(n == l + m + 5);
    assert(s[0] == '`');
    assert(!is_ws(s[0]));
    assert(skip_ws_fwd(s, 0, n) == 0);
    assert(s[n - 1] == '`');
    assert(skip_ws_back(s, 0, n) == n);
    assert(s.subrange(0, l) == open);
    assert(s[l] == '\n');
    assert(s[l + 1] == '{');
    if 0 <= variant < 3 {
        assert(starts_at(s, 0, n, fence_tag(variant)));
        if variant == 1 {
            assert(s.subrange(0, 7)[3] == 'J');
            assert(!starts_at(s, 0, n, fence_tag(0)));
        }
        if variant == 2 {
            assert(s.subrange(0, 7)[3] == 'J');
            assert(s.subrange(0, 7)[4] == 's');
            assert(!starts_at(s, 0, n, fence_tag(0)));
            assert(!starts_at(s, 0, n, fence_tag(1)));
        }
    } else {
        assert(s[3] == '\n');
        assert(!starts_at(s, 0, n, fence_tag(0))) by {
            if starts_at(s, 0, n, fence_tag(0)) {
                assert(s.subrange(0, 7)[3] == s[3]);
            }
        }
        assert(!starts_at(s, 0, n, fence_tag(1))) by {
            if starts_at(s, 0, n, fence_tag(1)) {
                assert(s.subrange(0, 7)[3] == s[3]);
            }
        }
        assert(!starts_at(s, 0, n, fence_tag(2))) by {
            if starts_at(s, 0, n, fence_tag(2)) {
                assert(s.subrange(0, 7)[3] == s[3]);
            }
        }
        assert(starts_at(s, 0, n, fence()));
    }
    assert(after_open_fence(s, 0, n) == l);
    assert(skip_char_fwd(s, l + 1, n, '\n') == l + 1);
    assert(skip_char_fwd(s, l, n, '\n') == l + 1);
    assert(!is_ws(s[l + 1]));
    assert(skip_ws_fwd(s, l + 1, n) == l + 1);
    assert(s.subrange(n - 3, n) == fence());
    assert(ends_at(s, l + 1, n, fence()));
    assert(s[n - 4] == '\n');
    assert(s[n - 5] == '}');
    assert(skip_ws_back(s, l + 1, n - 4) == n - 4);
    assert(skip_ws_back(s, l + 1, n - 3) == n - 4);
    assert(skip_char_back(s, l + 1, n - 4, '\n') == n - 4);
    assert(skip_ws_fwd(s, l + 1, n - 4) == l + 1);
    assert(skip_ws_back(s, l + 1, n - 4) == n - 4);
    assert(fence_body_range(s) == (l + 1, n - 4));
    assert(s.subrange(l + 1, n - 4) =~= body);
}

/// A bare JSON object needs no cleaning: its fence body is itself, starting at
/// its first character, so it is never parsed a second time.
pub proof fn law_unfenced_object_kept(body: Seq<char>)
    requires
        body.len() > 0,
        body[0] == '{',
        body.last() == '}',
    ensures
        fence_body_range(body) == (0int, body.len() as int),
        fence_body(body) == body,
{
    let s = body;
    let n = s.len() as int;
    assert(!is_ws(s[0]));
    assert(skip_ws_fwd(s, 0, n) == 0);
    assert(!is_ws(s[n - 1]));
    assert(skip_ws_back(s, 0, n) == n);
    assert(!starts_at(s, 0, n, fence_tag(0))) by {
        if starts_at(s, 0, n, fence_tag(0)) {
            assert(s.subrange(0, 7)[0] == s[0]);
        }
    }
    assert(!starts_at(s, 0, n, fence_tag(1))) by {
        if starts_at(s, 0, n, fence_tag(1)) {
            assert(s.subrange(0, 7)[0] == s[0]);
        }
    }
    assert(!starts_at(s, 0, n, fence_tag(2))) by {
        if starts_at(s, 0, n, fence_tag(2)) {
            assert(s.subrange(0, 7)[0] == s[0]);
        }
    }
    assert(!starts_at(s, 0, n, fence())) by {
        if starts_at(s, 0, n, fence()) {
            assert(s.subrange(0, 3)[0] == s[0]);
        }
    }
    assert(skip_char_fwd(s, 0, n, '\n') == 0);
    assert(!ends_at(s, 0, n, fence())) by {
        if ends_at(s, 0, n, fence()) {
            assert(s.subrange(n - 3, n)[2] == s[n - 1]);
        }
    }
    assert(skip_char_back(s, 0, n, '\n') == n);
    assert(s.subrange(0, n) =~= s);
}

} // verus!
