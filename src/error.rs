use vstd::prelude::*;

verus! {

/// The reasons for which an operation is rejected. A rejected operation leaves
/// the state unchanged.
#[derive(Debug, Clone, Copy, PartialEq, Eq, Structural)]
pub enum ContractError {
    /// The attached payment is below the required minimum.
    InsufficientDeposit,
    /// The available balance does not cover the amount.
    InsufficientBalance,
    /// The staked balance does not cover the amount.
    InsufficientStake,
    /// Nothing is staked, so there is nothing to reward.
    NoStake,
    /// The voter holds no available balance.
    NoVotingPower,
    /// The operation is reserved to the administrator.
    NotAdmin,
    /// An account cannot name itself as its referrer.
    SelfReferral,
    /// The account already has a referrer.
    AlreadyRegistered,
    /// No proposal has the given identifier.
    ProposalNotFound,
    /// The proposal's voting window has closed.
    VotingEnded,
    /// The proposal's voting window is still open.
    VotingNotEnded,
    /// The referrer is the caller itself or could not be resolved.
    SelfReferralOrReferrerMissing,
    /// The proposal has already been finalized.
    AlreadyFinalized,
}

impl ContractError {
    /// A human-readable message for the error.
    pub fn message(&self) -> (r: &'static str) {
        match self {
            ContractError::InsufficientDeposit => "Deposit too low",
            ContractError::InsufficientBalance => "Insufficient balance",
            ContractError::InsufficientStake => "Insufficient staked balance",
            ContractError::NoStake => "No staked tokens",
            ContractError::NoVotingPower => "No voting power",
            ContractError::NotAdmin => "Only admin can perform this action",
            ContractError::SelfReferral => "Cannot refer yourself",
            ContractError::AlreadyRegistered => "Referral already registered",
            ContractError::ProposalNotFound => "Proposal not found",
            ContractError::VotingEnded => "Voting period has ended",
            ContractError::VotingNotEnded => "Voting period not ended",
            ContractError::SelfReferralOrReferrerMissing => "Self referral or referrer missing",
            ContractError::AlreadyFinalized => "Proposal already finalized",
        }
    }
}

} // verus!
