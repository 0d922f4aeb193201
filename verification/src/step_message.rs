//! The message that reports a step's results back to the model.

use vstd::prelude::*;

use crate::history::{ActionResult, StepRecord};
use crate::llm::{ChatMessage, ContentPart, MessageView, PartView};
use crate::text::{decimal, decimal_text, push_text, truncate, truncated};

verus! {

/// Result text is cut to this many characters.
pub const TEXT_BUDGET: usize = 480;

/// Error text is cut to this many characters.
pub const ERROR_BUDGET: usize = 240;

/// The media type attached to step screenshots.
pub const SCREENSHOT_MEDIA_TYPE: &'static str = "image/png";

/// One result line: `  [{i}]`, ` done` for a finishing result, then the
/// error (cut to `ERROR_BUDGET`) or else the content (cut to `TEXT_BUDGET`).
pub open spec fn result_line(i: nat, r: ActionResult) -> Seq<char> {
    "  ["@ + decimal(i) + "]"@ + (if r.is_done { " done"@ } else { Seq::empty() }) + match r.error {
        Some(e) => " error: "@ + truncated(e@, ERROR_BUDGET as nat),
        None => match r.extracted_content {
            Some(c) => " "@ + truncated(c@, TEXT_BUDGET as nat),
            None => Seq::empty(),
        },
    } + "\n"@
}

/// The result lines of `rs`, numbered from zero.
pub open spec fn result_lines(rs: Seq<ActionResult>) -> Seq<char>
    decreases rs.len(),
{
    if rs.len() == 0 {
        Seq::empty()
    } else {
        result_lines(rs.drop_last()) + result_line((rs.len() - 1) as nat, rs.last())
    }
}

/// The text part of a step report.
pub open spec fn step_report_text(step: StepRecord) -> Seq<char> {
    "Step "@ + decimal(step.step.0 as nat) + " result:\n"@ + match step.url {
        Some(u) => "url: "@ + u@ + "\n"@,
        None => Seq::empty(),
    } + "action results:\n"@ + result_lines(step.results@)
}

/// Every image of `rs`, in order, as PNG parts.
pub open spec fn image_parts(rs: Seq<ActionResult>) -> Seq<PartView>
    decreases rs.len(),
{
    if rs.len() == 0 {
        Seq::empty()
    } else {
        image_parts(rs.drop_last()) + rs.last().images@.map_values(
            |d: String| PartView::Image(SCREENSHOT_MEDIA_TYPE@, d@),
        )
    }
}

fn render_result_line(i: usize, r: &ActionResult) -> (out: String)
    ensures
        out@ == result_line(i as nat, *r),
{
    let mut out = String::new();
    push_text(&mut out, "  [");
    push_text(&mut out, decimal_text(i as u64).as_str());
    push_text(&mut out, "]");
    if r.is_done {
        push_text(&mut out, " done");
    }
    match &r.error {
        Some(e) => {
            push_text(&mut out, " error: ");
            push_text(&mut out, truncate(e.as_str(), ERROR_BUDGET).as_str());
        },
        None => match &r.extracted_content {
            Some(c) => {
                push_text(&mut out, " ");
                push_text(&mut out, truncate(c.as_str(), TEXT_BUDGET).as_str());
            },
            None => {},
        },
    }
    push_text(&mut out, "\n");
    assert(out@ =~= result_line(i as nat, *r));
    out
}

fn render_report_text(step: &StepRecord) -> (out: String)
    ensures
        out@ == step_report_text(*step),
{
    let mut out = String::new();
    push_text(&mut out, "Step ");
    push_text(&mut out, decimal_text(step.step.0 as u64).as_str());
    push_text(&mut out, " result:\n");
    match &step.url {
        Some(u) => {
            push_text(&mut out, "url: ");
            push_text(&mut out, u.as_str());
            push_text(&mut out, "\n");
        },
        None => {},
    }
    push_text(&mut out, "action results:\n");
    let ghost head = out@;
    let rs = &step.results;
    let mut i: usize = 0;
    while i < rs.len()
        invariant
            i <= rs@.len(),
            out@ == head + result_lines(rs@.take(i as int)),
        decreases rs@.len() - i,
    {
        let line = render_result_line(i, &rs[i]);
        push_text(&mut out, line.as_str());
        assert(rs@.take(i + 1).drop_last() == rs@.take(i as int));
        i = i + 1;
    }
    assert(rs@.take(i as int) == rs@);
    assert(out@ =~= step_report_text(*step));
    out
}

/// The message reporting `step`'s results: none when nothing ran; else a user
/// message whose first part is the text report and whose other parts are the
/// results' images, in order.
pub fn render_step_message(step: &StepRecord) -> (m: Option<ChatMessage>)
    ensures
        match m {
            None => step.results@.len() == 0,
            Some(msg) => step.results@.len() > 0 && msg@ == MessageView::User(
                seq![PartView::Text(step_report_text(*step))] + image_parts(step.results@),
            ),
        },
{
    if step.results.len() == 0 {
        return None;
    }
    let text = render_report_text(step);
    let ghost t = text@;
    let mut parts: Vec<ContentPart> = Vec::new();
    parts.push(ContentPart::Text { text });
    let rs = &step.results;
    let mut i: usize = 0;
    while i < rs.len()
        invariant
            i <= rs@.len(),
            parts@.map_values(|p: ContentPart| p@) == seq![PartView::Text(t)] + image_parts(rs@.take(i as int)),
        decreases rs@.len() - i,
    {
        let imgs = &rs[i].images;
        let ghost base = parts@.map_values(|p: ContentPart| p@);
        let mut j: usize = 0;
        while j < imgs.len()
            invariant
                j <= imgs@.len(),
                parts@.map_values(|p: ContentPart| p@) == base + imgs@.take(j as int).map_values(
                    |d: String| PartView::Image(SCREENSHOT_MEDIA_TYPE@, d@),
                ),
            decreases imgs@.len() - j,
        {
            let mut media = String::new();
            push_text(&mut media, SCREENSHOT_MEDIA_TYPE);
            let ghost before = parts@;
            parts.push(ContentPart::ImageBase64 { media_type: media, data: imgs[j].clone() });
            assert(parts@.map_values(|p: ContentPart| p@) =~= base + imgs@.take(j + 1).map_values(
                |d: String| PartView::Image(SCREENSHOT_MEDIA_TYPE@, d@),
            )) by {
                assert(parts@ == before.push(parts@.last()));
                assert(parts@.last()@ == PartView::Image(SCREENSHOT_MEDIA_TYPE@, imgs@[j as int]@));
                assert(imgs@.take(j + 1) == imgs@.take(j as int).push(imgs@[j as int]));
                assert(parts@.map_values(|p: ContentPart| p@) =~= before.map_values(|p: ContentPart| p@).push(parts@.last()@));
            }
            j = j + 1;
        }
        assert(imgs@.take(j as int) == imgs@);
        assert(rs@.take(i + 1).drop_last() == rs@.take(i as int));
        assert(parts@.map_values(|p: ContentPart| p@) =~= seq![PartView::Text(t)] + image_parts(rs@.take(i + 1)));
        i = i + 1;
    }
    assert(rs@.take(i as int) == rs@);
    Some(ChatMessage::user_parts(parts))
}

} // verus!
