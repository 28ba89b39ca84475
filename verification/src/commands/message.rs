//! What starting a consume session answers.
use vstd::prelude::*;

verus! {

/// The id of a started consume session.
#[derive(Debug, Clone, PartialEq, Eq)]
pub struct StartConsumeResult {
    pub session_id: String,
}

} // verus!
