use vstd::prelude::*;

verus! {

/// An account that can own funds, authorize calls and contribute to a campaign.
///
/// The engine only ever compares identities; whoever embeds it assigns the
/// numbers (for example one per on-chain address).
#[derive(Clone, Copy, Debug, PartialEq, Eq, Hash, Structural)]
pub struct Identity {
    pub id: u64,
}

impl Identity {
    pub fn new(id: u64) -> (r: Identity)
        ensures
            r.id == id,
    {
        Identity { id }
    }
}

} // verus!
