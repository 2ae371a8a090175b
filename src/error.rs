use vstd::prelude::*;

verus! {

/// Why a campaign operation was refused. A refused operation changes nothing.
#[derive(Clone, Copy, Debug, PartialEq, Eq, Structural)]
pub enum CampaignError {
    /// The campaign has not been set up yet.
    NotInitialized,
    /// A contribution must be strictly positive.
    InvalidAmount,
    /// Contributions are closed once the deadline has passed.
    CampaignEnded,
    /// Refunds open only after the deadline.
    CampaignNotEnded,
    /// The goal was met, so contributions stay with the campaign.
    GoalReached,
    /// The contributor has nothing to take back.
    NoDonation,
}

} // verus!
