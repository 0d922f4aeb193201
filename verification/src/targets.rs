//! Browser tabs and the isolated contexts that hold them.

use vstd::prelude::*;

use crate::error::AppError;
use crate::ids::TargetId;
use crate::text::{push_text, same_text};

verus! {

/// Identifies an isolated browser context (its own cookies and storage).
#[derive(Debug, Clone)]
pub struct ContextId(pub String);

/// What the browser reports of one target: its id, its kind (`page`,
/// `iframe`, `service_worker`, ...) and the context it belongs to.
#[derive(Debug, Clone)]
pub struct TargetInfo {
    pub target_id: String,
    pub kind: String,
    pub context: Option<String>,
}

/// Whether the target is a page of the context `ctx`.
pub open spec fn page_of_context(info: TargetInfo, ctx: Seq<char>) -> bool {
    &&& info.kind@ == "page"@
    &&& info.context matches Some(c) && c@ == ctx
}

/// The ids, in order, of the targets that are pages of `ctx`.
pub open spec fn context_pages(infos: Seq<TargetInfo>, ctx: Seq<char>) -> Seq<Seq<char>>
    decreases infos.len(),
{
    if infos.len() == 0 {
        Seq::empty()
    } else if page_of_context(infos.last(), ctx) {
        context_pages(infos.drop_last(), ctx).push(infos.last().target_id@)
    } else {
        context_pages(infos.drop_last(), ctx)
    }
}

/// The page targets of the context `ctx`, in the order reported.
pub fn targets_in_context(infos: &[TargetInfo], ctx: &ContextId) -> (ids: Vec<TargetId>)
    ensures
        ids@.map_values(|t: TargetId| t.0@) == context_pages(infos@, ctx.0@),
{
    let mut ids: Vec<TargetId> = Vec::new();
    let mut i: usize = 0;
    while i < infos.len()
        invariant
            i <= infos@.len(),
            ids@.map_values(|t: TargetId| t.0@) == context_pages(infos@.take(i as int), ctx.0@),
        decreases infos@.len() - i,
    {
        let info = &infos[i];
        assert(infos@.take(i + 1).drop_last() == infos@.take(i as int));
        assert(infos@.take(i + 1).last() == infos@[i as int]);
        let is_page = same_text(info.kind.as_str(), "page");
        let in_ctx = match &info.context {
            Some(c) => same_text(c.as_str(), ctx.0.as_str()),
            None => false,
        };
        if is_page && in_ctx {
            let mut id = String::new();
            push_text(&mut id, info.target_id.as_str());
            let ghost before = ids@;
            ids.push(TargetId(id));
            assert(ids@.map_values(|t: TargetId| t.0@) =~= before.map_values(|t: TargetId| t.0@).push(info.target_id@));
        }
        i = i + 1;
    }
    assert(infos@.take(infos@.len() as int) == infos@);
    ids
}

/// The target the agent works on when none is bound: the last one listed.
pub fn focused_target_of(targets: Vec<TargetId>) -> (r: Result<TargetId, AppError>)
    ensures
        targets@.len() > 0 ==> (r matches Ok(t) && t == targets@.last()),
        targets@.len() == 0 ==> (r matches Err(AppError::NotFound(m)) && m@ == "no focused target"@),
{
    let mut targets = targets;
    match targets.pop() {
        Some(t) => Ok(t),
        None => {
            let mut m = String::new();
            push_text(&mut m, "no focused target");
            Err(AppError::NotFound(m))
        },
    }
}

} // verus!
