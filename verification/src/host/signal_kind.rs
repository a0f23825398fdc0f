//! Signaling kinds carried on control messages.

use vstd::prelude::*;

verus! {

/// Local/remote SDP offer.
pub const SESSION_OFFER: &'static str = "session_offer";

/// Local/remote SDP answer.
pub const SESSION_ANSWER: &'static str = "session_answer";

/// ICE candidate.
pub const ICE_CANDIDATE: &'static str = "ice_candidate";

} // verus!
