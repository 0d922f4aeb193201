//! The list of clickable elements shown to the model.

use vstd::prelude::*;

use crate::ids::TargetId;
use crate::text::{decimal, decimal_text, push_text, truncate, truncated};

verus! {

/// At most this many elements are listed.
pub const CLICKABLE_LIMIT: usize = 80;

/// Names and labels are cut to this many characters.
pub const NAME_BUDGET: usize = 80;

/// An element the model may click, by its index in the page's element list.
#[derive(Debug, Clone)]
pub struct ClickableElement {
    pub index: u32,
    pub backend_node_id: i64,
    pub xpath: String,
    pub stable_hash: String,
    pub ax_name: Option<String>,
    pub tag: String,
    pub label: Option<String>,
}

/// What the agent saw of a page at one moment.
#[derive(Debug, Clone)]
pub struct BrowserStateSummary {
    pub target: TargetId,
    pub url: String,
    pub title: String,
    pub clickables: Vec<ClickableElement>,
    pub screenshot_b64: Option<String>,
}

/// The quoted name of an element: its accessible name, else its label, else nothing.
pub open spec fn element_name_part(c: ClickableElement) -> Seq<char> {
    match c.ax_name {
        Some(n) => " \""@ + truncated(n@, NAME_BUDGET as nat) + "\""@,
        None => match c.label {
            Some(l) => " \""@ + truncated(l@, NAME_BUDGET as nat) + "\""@,
            None => Seq::empty(),
        },
    }
}

/// One listed element: `  [{index}] {tag}`, its quoted name, and a newline.
pub open spec fn element_line(c: ClickableElement) -> Seq<char> {
    "  ["@ + decimal(c.index as nat) + "] "@ + c.tag@ + element_name_part(c) + "\n"@
}

/// The lines of `cs`, in order.
pub open spec fn element_lines(cs: Seq<ClickableElement>) -> Seq<char>
    decreases cs.len(),
{
    if cs.len() == 0 {
        Seq::empty()
    } else {
        element_lines(cs.drop_last()) + element_line(cs.last())
    }
}

/// The note that follows the list when elements were left out.
pub open spec fn overflow_note(n: nat) -> Seq<char> {
    if n > CLICKABLE_LIMIT {
        "  \u{2026}and "@ + decimal((n - CLICKABLE_LIMIT) as nat) + " more (truncated)\n"@
    } else {
        Seq::empty()
    }
}

/// The rendered map: empty when nothing is clickable; else a header, the first
/// `CLICKABLE_LIMIT` elements and, if any were left out, how many.
pub open spec fn rendered_clickable_map(cs: Seq<ClickableElement>) -> Seq<char> {
    if cs.len() == 0 {
        Seq::empty()
    } else {
        let shown = if cs.len() <= CLICKABLE_LIMIT { cs } else { cs.take(CLICKABLE_LIMIT as int) };
        "clickable_elements:\n"@ + element_lines(shown) + overflow_note(cs.len())
    }
}

fn render_element_line(c: &ClickableElement) -> (out: String)
    ensures
        out@ == element_line(*c),
{
    let mut out = String::new();
    push_text(&mut out, "  [");
    let idx = decimal_text(c.index as u64);
    push_text(&mut out, idx.as_str());
    push_text(&mut out, "] ");
    push_text(&mut out, c.tag.as_str());
    match &c.ax_name {
        Some(name) => {
            push_text(&mut out, " \"");
            let t = truncate(name.as_str(), NAME_BUDGET);
            push_text(&mut out, t.as_str());
            push_text(&mut out, "\"");
        },
        None => match &c.label {
            Some(label) => {
                push_text(&mut out, " \"");
                let t = truncate(label.as_str(), NAME_BUDGET);
                push_text(&mut out, t.as_str());
                push_text(&mut out, "\"");
            },
            None => {},
        },
    }
    push_text(&mut out, "\n");
    assert(out@ =~= element_line(*c));
    out
}

/// Renders the clickable elements of `summary` for the prompt.
pub fn render_clickable_map(summary: &BrowserStateSummary) -> (out: String)
    ensures
        out@ == rendered_clickable_map(summary.clickables@),
{
    let cs = &summary.clickables;
    if cs.len() == 0 {
        return String::new();
    }
    let mut out = String::new();
    push_text(&mut out, "clickable_elements:\n");
    let shown = if cs.len() <= CLICKABLE_LIMIT { cs.len() } else { CLICKABLE_LIMIT };
    let mut i: usize = 0;
    while i < shown
        invariant
            cs@ == summary.clickables@,
            shown == (if cs@.len() <= CLICKABLE_LIMIT { cs@.len() } else { CLICKABLE_LIMIT as nat }),
            i <= shown,
            out@ == "clickable_elements:\n"@ + element_lines(cs@.take(i as int)),
        decreases shown - i,
    {
        let ghost before = out@;
        let line = render_element_line(&cs[i]);
        push_text(&mut out, line.as_str());
        assert(cs@.take(i + 1).drop_last() == cs@.take(i as int));
        assert(out@ =~= before + element_line(cs@[i as int]));
        i = i + 1;
    }
    if cs.len() <= CLICKABLE_LIMIT {
        assert(cs@.take(i as int) == cs@);
    }
    if cs.len() > CLICKABLE_LIMIT {
        let ghost before = out@;
        push_text(&mut out, "  \u{2026}and ");
        let more = decimal_text((cs.len() - CLICKABLE_LIMIT) as u64);
        push_text(&mut out, more.as_str());
        push_text(&mut out, " more (truncated)\n");
        assert(out@ =~= before + overflow_note(cs@.len()));
    }
    out
}

} // verus!
