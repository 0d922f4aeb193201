//! Identifiers shared by the agent, the browser and the tools.

use vstd::prelude::*;

verus! {

/// The registered name of a tool action, such as `navigate`.
#[derive(Debug, Clone)]
pub struct ActionName(pub String);

/// The index of a step within one agent run.
#[derive(Debug, Clone, Copy, PartialEq, Eq, Hash)]
pub struct StepId(pub u32);

/// Identifies one agent run; the 128 bits of a UUID.
#[derive(Debug, Clone, Copy, PartialEq, Eq, Hash)]
pub struct AgentId(pub u128);

/// Identifies a browser tab.
#[derive(Debug, Clone)]
pub struct TargetId(pub String);

/// Whether the 128 bits (big-endian, as `Uuid::as_u128` gives them) are a
/// version 7 UUID of the RFC 4122 variant: version nibble 7, variant bits `10`.
pub open spec fn is_uuid_v7(bits: u128) -> bool {
    &&& (bits >> 76u128) & 0xfu128 == 7
    &&& (bits >> 62u128) & 0x3u128 == 2
}

/// Draws a fresh time-ordered UUID (`uuid::Uuid::now_v7`) and returns its bits.
/// Trusted: the value is a version 7 UUID, as the crate's source builds every
/// one (version nibble set to 7, variant bits to `10`); its time and random
/// parts depend on the clock and chance, and nothing is claimed of them.
#[verifier::external_body]
fn fresh_uuid_bits() -> (bits: u128)
    ensures
        is_uuid_v7(bits),
{
    uuid::Uuid::now_v7().as_u128()
}

impl AgentId {
    /// A fresh identifier for a new agent run: a version 7 UUID.
    pub fn new() -> (id: Self)
        ensures
            is_uuid_v7(id.0),
    {
        AgentId(fresh_uuid_bits())
    }
}

/// Optional text, by its characters.
pub open spec fn opt_text(o: Option<String>) -> Option<Seq<char>> {
    match o {
        Some(s) => Some(s@),
        None => None,
    }
}

} // verus!
