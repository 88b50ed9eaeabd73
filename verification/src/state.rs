//! Lifecycle states of a claim and their numeric wire codes.

use vstd::prelude::*;

verus! {

/// The four lifecycle states of a claim, in issuance order.
///
/// A record is created in `Initialized`; posting the offer advances it to
/// `OfferSent`; attaching the holder's credential request advances it to
/// `RequestReceived`; delivering the signed credential ends the lifecycle
/// in `ClaimSent`.  No operation ever moves a record backward.
#[derive(Clone, Copy, Debug, PartialEq, Eq, Structural)]
pub enum ClaimState {
    Initialized,
    OfferSent,
    RequestReceived,
    ClaimSent,
}

/// Numeric code of a state, the form it takes in serialized records.
pub open spec fn spec_state_code(s: ClaimState) -> u32 {
    match s {
        ClaimState::Initialized => 1,
        ClaimState::OfferSent => 2,
        ClaimState::RequestReceived => 3,
        ClaimState::ClaimSent => 4,
    }
}

/// `a` does not come after `b` in the lifecycle order.
pub open spec fn state_le(a: ClaimState, b: ClaimState) -> bool {
    spec_state_code(a) <= spec_state_code(b)
}

pub fn state_code(s: ClaimState) -> (code: u32)
    ensures
        code == spec_state_code(s),
{
    match s {
        ClaimState::Initialized => 1,
        ClaimState::OfferSent => 2,
        ClaimState::RequestReceived => 3,
        ClaimState::ClaimSent => 4,
    }
}

/// The state a numeric wire code denotes, if the code is known.
pub open spec fn spec_state_from_code(code: u32) -> Option<ClaimState> {
    if code == 1 {
        Some(ClaimState::Initialized)
    } else if code == 2 {
        Some(ClaimState::OfferSent)
    } else if code == 3 {
        Some(ClaimState::RequestReceived)
    } else if code == 4 {
        Some(ClaimState::ClaimSent)
    } else {
        None
    }
}

pub fn state_from_code(code: u32) -> (s: Option<ClaimState>)
    ensures
        s == spec_state_from_code(code),
{
    if code == 1 {
        Some(ClaimState::Initialized)
    } else if code == 2 {
        Some(ClaimState::OfferSent)
    } else if code == 3 {
        Some(ClaimState::RequestReceived)
    } else if code == 4 {
        Some(ClaimState::ClaimSent)
    } else {
        None
    }
}

/// The state code round-trips through the wire encoding.
pub proof fn lemma_state_code_round_trip(s: ClaimState)
    ensures
        spec_state_from_code(spec_state_code(s)) == Some(s),
{
}

/// The moves a single lifecycle operation can make: staying put, posting the
/// offer, receiving the holder's request (also directly from `Initialized`,
/// when a request is attached by hand), and delivering the claim.
pub open spec fn reachable_step(pre: ClaimState, post: ClaimState) -> bool {
    ||| pre == post
    ||| (pre == ClaimState::Initialized && post == ClaimState::OfferSent)
    ||| (pre == ClaimState::Initialized && post == ClaimState::RequestReceived)
    ||| (pre == ClaimState::OfferSent && post == ClaimState::RequestReceived)
    ||| (pre == ClaimState::RequestReceived && post == ClaimState::ClaimSent)
}

/// Monotonicity law: no operation ever moves the state backward in the
/// lifecycle order.
pub proof fn lemma_step_monotone(pre: ClaimState, post: ClaimState)
    requires
        reachable_step(pre, post),
    ensures
        state_le(pre, post),
{
}

} // verus!
