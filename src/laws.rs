//! Properties of the ledger that span accounts, calls or whole histories,
//! proved over the model in `model`.
use vstd::prelude::*;

use crate::error::ContractError;
use crate::model::{amount_of, bonus_for, reward_for, ContractView, MIN_DEPOSIT};

verus! {

/// No account ever holds a negative available, staked or tipped amount.
pub proof fn lemma_amounts_nonnegative(s: ContractView, a: Seq<char>)
    ensures
        s.balance(a) >= 0,
        s.staked_of(a) >= 0,
        s.tip_total(a) >= 0,
{
}

/// A mint by an account without referrer credits exactly the deposit to that
/// account and to the supply, and to nobody else.
pub proof fn lemma_mint_without_referral(s: ContractView, caller: Seq<char>, deposit: u128)
    requires
        s.well_formed(),
        s.mint_in_range(caller, deposit),
        deposit >= MIN_DEPOSIT,
        !s.referrals.contains_key(caller),
    ensures
        s.mint(caller, deposit) is Ok,
        s.mint(caller, deposit)->Ok_0.balance(caller) == s.balance(caller) + deposit,
        s.mint(caller, deposit)->Ok_0.total_supply == s.total_supply + deposit,
        forall|a: Seq<char>|
            a != caller ==> #[trigger] s.mint(caller, deposit)->Ok_0.balance(a) == s.balance(a),
{
}

/// A mint by an account with a referrer credits the deposit to the account,
/// one percent of it (rounded down) to the referrer, and both to the supply.
pub proof fn lemma_mint_with_referral(s: ContractView, caller: Seq<char>, deposit: u128)
    requires
        s.well_formed(),
        s.mint_in_range(caller, deposit),
        deposit >= MIN_DEPOSIT,
        s.referrals.contains_key(caller),
    ensures
        ({
            let t = s.mint(caller, deposit)->Ok_0;
            let r = s.referrals[caller];
            &&& s.mint(caller, deposit) is Ok
            &&& t.balance(caller) == s.balance(caller) + deposit
            &&& t.balance(r) == s.balance(r) + deposit / 100
            &&& t.total_supply == s.total_supply + deposit + deposit / 100
        }),
{
    assert(s.referrals[caller] != caller);
}

/// A tip moves value between two accounts: their combined balance and the
/// supply stay the same, also when an account tips itself.
pub proof fn lemma_tip_conserves(s: ContractView, sender: Seq<char>, receiver: Seq<char>, amount: u128)
    requires
        s.tip_in_range(sender, receiver, amount),
        s.balance(sender) >= amount,
    ensures
        s.tip(sender, receiver, amount) is Ok,
        ({
            let t = s.tip(sender, receiver, amount)->Ok_0;
            &&& t.balance(sender) + t.balance(receiver) == s.balance(sender) + s.balance(receiver)
            &&& t.total_supply == s.total_supply
        }),
{
}

/// In every well-formed state the top tipper has tipped at least as much as
/// any account, and there is no top tipper only while nobody has tipped.
pub proof fn lemma_top_tipper_is_maximal(s: ContractView)
    requires
        s.well_formed(),
    ensures
        match s.top_tipper {
            Some(t) => forall|a: Seq<char>| #[trigger] s.tip_total(a) <= s.tip_total(t),
            None => forall|a: Seq<char>| #[trigger] s.tip_total(a) == 0,
        },
{
    match s.top_tipper {
        Some(t) => {
            assert forall|a: Seq<char>| #[trigger] s.tip_total(a) <= s.tip_total(t) by {
                assert(amount_of(s.tip_totals, a) <= amount_of(s.tip_totals, t));
            }
        },
        None => {},
    }
}

/// A tip that only brings the sender level with the top tipper leaves the top
/// tipper in place; one that takes the sender strictly past it makes the
/// sender the top tipper.
pub proof fn lemma_top_tipper_ties(s: ContractView, sender: Seq<char>, receiver: Seq<char>, amount: u128)
    requires
        s.tip_in_range(sender, receiver, amount),
        s.balance(sender) >= amount,
        s.top_tipper is Some,
        s.top_tipper->Some_0 != sender,
    ensures
        s.tip_total(sender) + amount == s.tip_total(s.top_tipper->Some_0) ==> s.tip(
            sender,
            receiver,
            amount,
        )->Ok_0.top_tipper == s.top_tipper,
        s.tip_total(sender) + amount > s.tip_total(s.top_tipper->Some_0) ==> s.tip(
            sender,
            receiver,
            amount,
        )->Ok_0.top_tipper == Some(sender),
{
}

/// Staking an amount and unstaking it again right after gives every account
/// back its available and staked balances and leaves everything else as it was.
pub proof fn lemma_stake_unstake_round_trip(s: ContractView, caller: Seq<char>, amount: u128)
    requires
        s.stake_in_range(caller, amount),
        s.balance(caller) >= amount,
    ensures
        s.stake(caller, amount) is Ok,
        s.stake(caller, amount)->Ok_0.unstake_in_range(caller, amount),
        s.stake(caller, amount)->Ok_0.unstake(caller, amount) is Ok,
        ({
            let u = s.stake(caller, amount)->Ok_0.unstake(caller, amount)->Ok_0;
            &&& forall|a: Seq<char>| #[trigger] u.balance(a) == s.balance(a)
            &&& forall|a: Seq<char>| #[trigger] u.staked_of(a) == s.staked_of(a)
            &&& u.total_supply == s.total_supply
            &&& u.referrals == s.referrals
            &&& u.proposals == s.proposals
            &&& u.tip_totals == s.tip_totals
            &&& u.top_tipper == s.top_tipper
        }),
{
}

/// A claim on a stake `st` pays `st * 5 / 100`, rounded down, into the
/// available balance and the supply; a second claim right after pays it again.
pub proof fn lemma_claim_rewards_twice(s: ContractView, caller: Seq<char>)
    requires
        s.staked_of(caller) > 0,
        s.balance(caller) + 2 * reward_for(s.staked_of(caller)) <= u128::MAX,
        s.total_supply + 2 * reward_for(s.staked_of(caller)) <= u128::MAX,
    ensures
        reward_for(s.staked_of(caller)) == s.staked_of(caller) * 5 / 100,
        s.claim_rewards(caller) is Ok,
        s.claim_rewards(caller)->Ok_0.claim_in_range(caller),
        s.claim_rewards(caller)->Ok_0.claim_rewards(caller) is Ok,
        ({
            let t = s.claim_rewards(caller)->Ok_0;
            let u = t.claim_rewards(caller)->Ok_0;
            let reward = reward_for(s.staked_of(caller));
            &&& t.balance(caller) == s.balance(caller) + reward
            &&& t.total_supply == s.total_supply + reward
            &&& u.balance(caller) == s.balance(caller) + 2 * reward
            &&& u.total_supply == s.total_supply + 2 * reward
        }),
{
}

/// A referrer is registered once: a second registration for the same account
/// fails, and naming oneself always fails.
pub proof fn lemma_referral_once(
    s: ContractView,
    a: Seq<char>,
    b: Seq<char>,
    c: Seq<char>,
)
    requires
        a != b,
        a != c,
    ensures
        ({
            let t = match s.register_referral(a, b) {
                Ok(t) => t,
                Err(_) => s,
            };
            t.register_referral(a, c) == Err::<ContractView, ContractError>(
                ContractError::AlreadyRegistered,
            )
        }),
        s.register_referral(a, a) == Err::<ContractView, ContractError>(ContractError::SelfReferral),
{
}

/// Before the deadline, votes from an account with a balance are accepted and
/// add up over repeated calls; after it they are refused, and an account
/// without balance is refused at any time.
pub proof fn lemma_vote_window(s: ContractView, voter: Seq<char>, id: u64, support: bool, now: u64)
    requires
        id < s.proposals.len(),
    ensures
        ({
            let p = s.proposals[id as int];
            let w = s.balance(voter);
            now < p.deadline && w > 0 && p.votes_for + 2 * w <= u128::MAX ==> {
                let t = s.vote(voter, id, true, now)->Ok_0;
                let u = t.vote(voter, id, true, now)->Ok_0;
                &&& s.vote(voter, id, true, now) is Ok
                &&& t.vote(voter, id, true, now) is Ok
                &&& u.proposals[id as int].votes_for == p.votes_for + 2 * w
                &&& u.proposals[id as int].votes_against == p.votes_against
            }
        }),
        ({
            let p = s.proposals[id as int];
            let w = s.balance(voter);
            now < p.deadline && w > 0 && p.votes_against + 2 * w <= u128::MAX ==> {
                let t = s.vote(voter, id, false, now)->Ok_0;
                let u = t.vote(voter, id, false, now)->Ok_0;
                &&& s.vote(voter, id, false, now) is Ok
                &&& t.vote(voter, id, false, now) is Ok
                &&& u.proposals[id as int].votes_against == p.votes_against + 2 * w
                &&& u.proposals[id as int].votes_for == p.votes_for
            }
        }),
        now >= s.proposals[id as int].deadline && s.balance(voter) > 0 ==> s.vote(
            voter,
            id,
            support,
            now,
        ) == Err::<ContractView, ContractError>(ContractError::VotingEnded),
        s.balance(voter) == 0 ==> s.vote(voter, id, support, now) == Err::<
            ContractView,
            ContractError,
        >(ContractError::NoVotingPower),
{
}

/// The administrator cannot close a proposal before its deadline; after it,
/// the first attempt closes it and every later one is refused.
pub proof fn lemma_finalize_once(s: ContractView, id: u64, now: u64)
    requires
        id < s.proposals.len(),
        !s.proposals[id as int].finalized,
    ensures
        now < s.proposals[id as int].deadline ==> s.finalize_proposal(s.admin, id, now) == Err::<
            ContractView,
            ContractError,
        >(ContractError::VotingNotEnded),
        now >= s.proposals[id as int].deadline ==> {
            let t = s.finalize_proposal(s.admin, id, now)->Ok_0;
            &&& s.finalize_proposal(s.admin, id, now) is Ok
            &&& t.proposals[id as int].finalized
            &&& t.proposals[id as int].deadline == s.proposals[id as int].deadline
            &&& t.proposals[id as int].votes_for == s.proposals[id as int].votes_for
            &&& t.proposals[id as int].votes_against == s.proposals[id as int].votes_against
            &&& forall|later: u64|
                #[trigger] t.finalize_proposal(t.admin, id, later) == Err::<
                    ContractView,
                    ContractError,
                >(ContractError::AlreadyFinalized) || later < t.proposals[id as int].deadline
        },
{
}

} // verus!
