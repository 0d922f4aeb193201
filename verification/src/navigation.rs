//! Which browser navigations are reported.

use vstd::prelude::*;

use crate::urls::{parse_url, url_parse_result};

verus! {

/// What to do with a frame-navigated event.
#[derive(Debug, Clone)]
pub enum NavDecision {
    /// Report that the page now shows this URL.
    Publish(String),
    /// Report nothing.
    Skip,
}

/// Navigations of sub-frames are not reported; a top-frame navigation is
/// reported with its URL, when the URL parses.
pub fn navigation_decision(is_sub_frame: bool, frame_url: &str) -> (d: NavDecision)
    ensures
        is_sub_frame ==> d is Skip,
        !is_sub_frame ==> match url_parse_result(frame_url@) {
            Ok(u) => d matches NavDecision::Publish(t) && t@ == u,
            Err(_) => d is Skip,
        },
{
    if is_sub_frame {
        return NavDecision::Skip;
    }
    match parse_url(frame_url) {
        Ok(t) => NavDecision::Publish(t),
        Err(_) => NavDecision::Skip,
    }
}

} // verus!
