//! The lifecycle of a browser session.

use vstd::prelude::*;

verus! {

/// Where a browser session stands.
#[derive(Debug, Clone, Copy, PartialEq, Eq)]
pub enum SessionState {
    Disconnected,
    Connecting,
    Ready,
    Crashed,
    Closed,
}

} // verus!
