//! The abstract state of the ledger and the effect of every operation on it.
//!
//! Accounts are identified by their names (`Seq<char>`). A map read at an
//! absent account yields zero: absence and a zero amount mean the same.
use vstd::prelude::*;

use crate::error::ContractError;

verus! {

/// The smallest payment, in the smallest unit, that `mint` accepts.
pub const MIN_DEPOSIT: u128 = 10_000_000_000_000_000;

/// How long a proposal stays open for votes: seven days in nanoseconds.
pub const VOTING_PERIOD: u64 = 604_800_000_000_000;

/// A referrer earns one part in this many of each deposit of the referred account.
pub const REFERRAL_DIVISOR: u128 = 100;

/// The reward on a stake, in percent.
pub const REWARD_PERCENT: u128 = 5;

/// The abstract value of a governance proposal.
pub struct ProposalView {
    pub id: u64,
    pub description: Seq<char>,
    pub votes_for: u128,
    pub votes_against: u128,
    pub deadline: u64,
    pub finalized: bool,
}

/// The abstract value of the whole ledger.
pub struct ContractView {
    pub balances: Map<Seq<char>, u128>,
    pub total_supply: u128,
    pub admin: Seq<char>,
    pub referrals: Map<Seq<char>, Seq<char>>,
    pub staked: Map<Seq<char>, u128>,
    pub proposals: Seq<ProposalView>,
    pub next_proposal_id: u64,
    pub tip_totals: Map<Seq<char>, u128>,
    pub top_tipper: Option<Seq<char>>,
}

/// The amount that `m` records for `a`, zero where it records none.
pub open spec fn amount_of(m: Map<Seq<char>, u128>, a: Seq<char>) -> u128 {
    if m.contains_key(a) {
        m[a]
    } else {
        0
    }
}

/// The reward earned on a stake of `s`: five percent, rounded down.
pub open spec fn reward_for(s: u128) -> int {
    (s * REWARD_PERCENT) as int / 100
}

/// The referral bonus earned on a deposit of `d`: one percent, rounded down.
pub open spec fn bonus_for(d: u128) -> int {
    d as int / REFERRAL_DIVISOR as int
}

impl ContractView {
    /// The state right after creation, with `admin` as administrator.
    pub open spec fn initial(admin: Seq<char>) -> ContractView {
        ContractView {
            balances: Map::empty(),
            total_supply: 0,
            admin,
            referrals: Map::empty(),
            staked: Map::empty(),
            proposals: Seq::empty(),
            next_proposal_id: 0,
            tip_totals: Map::empty(),
            top_tipper: None,
        }
    }

    pub open spec fn balance(self, a: Seq<char>) -> u128 {
        amount_of(self.balances, a)
    }

    pub open spec fn staked_of(self, a: Seq<char>) -> u128 {
        amount_of(self.staked, a)
    }

    pub open spec fn tip_total(self, a: Seq<char>) -> u128 {
        amount_of(self.tip_totals, a)
    }

    /// The top tipper, if any, has tipped at least as much as any account;
    /// there is none only while nobody has tipped.
    pub open spec fn top_tipper_is_maximal(self) -> bool {
        match self.top_tipper {
            Some(t) => forall|a: Seq<char>| #[trigger]
                amount_of(self.tip_totals, a) <= amount_of(self.tip_totals, t),
            None => self.tip_totals.is_empty(),
        }
    }

    /// What every reachable state satisfies.
    pub open spec fn well_formed(self) -> bool {
        &&& self.next_proposal_id == self.proposals.len()
        &&& forall|i: int| 0 <= i < self.proposals.len() ==> #[trigger] self.proposals[i].id == i
        &&& forall|a: Seq<char>| #[trigger]
            self.referrals.contains_key(a) ==> self.referrals[a] != a
        &&& self.top_tipper_is_maximal()
    }

    /// Credits `amount` to the available balance of `a`.
    pub open spec fn credit(self, a: Seq<char>, amount: int) -> ContractView {
        ContractView {
            balances: self.balances.insert(a, (self.balance(a) + amount) as u128),
            ..self
        }
    }

    /// Changes the total supply by `delta`.
    pub open spec fn adjust_supply(self, delta: int) -> ContractView {
        ContractView { total_supply: (self.total_supply + delta) as u128, ..self }
    }

    /// Changes the staked balance of `a` by `delta`.
    pub open spec fn adjust_stake(self, a: Seq<char>, delta: int) -> ContractView {
        ContractView {
            staked: self.staked.insert(a, (self.staked_of(a) + delta) as u128),
            ..self
        }
    }

    /// `caller` deposits `deposit`; a registered referrer earns a bonus.
    pub open spec fn mint(self, caller: Seq<char>, deposit: u128) -> Result<
        ContractView,
        ContractError,
    > {
        if deposit < MIN_DEPOSIT {
            Err(ContractError::InsufficientDeposit)
        } else {
            let s = self.credit(caller, deposit as int).adjust_supply(deposit as int);
            if self.referrals.contains_key(caller) {
                let bonus = bonus_for(deposit);
                Ok(s.credit(self.referrals[caller], bonus).adjust_supply(bonus))
            } else {
                Ok(s)
            }
        }
    }

    /// No addition in `mint` leaves the range of `u128`.
    pub open spec fn mint_in_range(self, caller: Seq<char>, deposit: u128) -> bool {
        deposit >= MIN_DEPOSIT ==> {
            &&& self.balance(caller) + deposit <= u128::MAX
            &&& self.total_supply + deposit + bonus_for(deposit) <= u128::MAX
            &&& self.referrals.contains_key(caller) ==> self.balance(self.referrals[caller])
                + bonus_for(deposit) <= u128::MAX
        }
    }

    /// The top tipper after `sender` has brought its lifetime total to `total`.
    pub open spec fn next_top_tipper(self, sender: Seq<char>, total: u128) -> Option<Seq<char>> {
        match self.top_tipper {
            None => Some(sender),
            Some(t) => if t != sender && total > self.tip_total(t) {
                Some(sender)
            } else {
                self.top_tipper
            },
        }
    }

    /// `sender` hands `amount` of its balance to `receiver`.
    pub open spec fn tip(self, sender: Seq<char>, receiver: Seq<char>, amount: u128) -> Result<
        ContractView,
        ContractError,
    > {
        if self.balance(sender) < amount {
            Err(ContractError::InsufficientBalance)
        } else {
            let total = (self.tip_total(sender) + amount) as u128;
            let s = self.credit(sender, -amount).credit(receiver, amount as int);
            Ok(
                ContractView {
                    tip_totals: self.tip_totals.insert(sender, total),
                    top_tipper: self.next_top_tipper(sender, total),
                    ..s
                },
            )
        }
    }

    pub open spec fn tip_in_range(self, sender: Seq<char>, receiver: Seq<char>, amount: u128) -> bool {
        self.balance(sender) >= amount ==> {
            &&& sender != receiver ==> self.balance(receiver) + amount <= u128::MAX
            &&& self.tip_total(sender) + amount <= u128::MAX
        }
    }

    /// `caller` takes `amount` out of the ledger; the total supply is kept.
    pub open spec fn withdraw(self, caller: Seq<char>, amount: u128) -> Result<
        ContractView,
        ContractError,
    > {
        if self.balance(caller) < amount {
            Err(ContractError::InsufficientBalance)
        } else {
            Ok(self.credit(caller, -amount))
        }
    }

    /// `caller` destroys `amount` of its balance.
    pub open spec fn burn(self, caller: Seq<char>, amount: u128) -> Result<
        ContractView,
        ContractError,
    > {
        if self.balance(caller) < amount {
            Err(ContractError::InsufficientBalance)
        } else {
            Ok(self.credit(caller, -amount).adjust_supply(-amount))
        }
    }

    pub open spec fn burn_in_range(self, caller: Seq<char>, amount: u128) -> bool {
        self.balance(caller) >= amount ==> self.total_supply >= amount
    }

    /// `caller` moves `amount` from its available to its staked balance.
    pub open spec fn stake(self, caller: Seq<char>, amount: u128) -> Result<
        ContractView,
        ContractError,
    > {
        if self.balance(caller) < amount {
            Err(ContractError::InsufficientBalance)
        } else {
            Ok(self.credit(caller, -amount).adjust_stake(caller, amount as int))
        }
    }

    pub open spec fn stake_in_range(self, caller: Seq<char>, amount: u128) -> bool {
        self.balance(caller) >= amount ==> self.staked_of(caller) + amount <= u128::MAX
    }

    /// `caller` moves `amount` from its staked back to its available balance.
    pub open spec fn unstake(self, caller: Seq<char>, amount: u128) -> Result<
        ContractView,
        ContractError,
    > {
        if self.staked_of(caller) < amount {
            Err(ContractError::InsufficientStake)
        } else {
            Ok(self.adjust_stake(caller, -amount).credit(caller, amount as int))
        }
    }

    pub open spec fn unstake_in_range(self, caller: Seq<char>, amount: u128) -> bool {
        self.staked_of(caller) >= amount ==> self.balance(caller) + amount <= u128::MAX
    }

    /// `caller` is paid the reward on its current stake, newly minted.
    pub open spec fn claim_rewards(self, caller: Seq<char>) -> Result<ContractView, ContractError> {
        if self.staked_of(caller) == 0 {
            Err(ContractError::NoStake)
        } else {
            let reward = reward_for(self.staked_of(caller));
            Ok(self.credit(caller, reward).adjust_supply(reward))
        }
    }

    pub open spec fn claim_in_range(self, caller: Seq<char>) -> bool {
        &&& self.balance(caller) + reward_for(self.staked_of(caller)) <= u128::MAX
        &&& self.total_supply + reward_for(self.staked_of(caller)) <= u128::MAX
    }

    /// `caller` names `referrer` as its referrer, once and for all.
    pub open spec fn register_referral(self, caller: Seq<char>, referrer: Seq<char>) -> Result<
        ContractView,
        ContractError,
    > {
        if caller == referrer {
            Err(ContractError::SelfReferral)
        } else if self.referrals.contains_key(caller) {
            Err(ContractError::AlreadyRegistered)
        } else {
            Ok(ContractView { referrals: self.referrals.insert(caller, referrer), ..self })
        }
    }

    /// The administrator opens a proposal at time `now`.
    pub open spec fn propose(self, caller: Seq<char>, description: Seq<char>, now: u64) -> Result<
        ContractView,
        ContractError,
    > {
        if caller != self.admin {
            Err(ContractError::NotAdmin)
        } else {
            let p = ProposalView {
                id: self.next_proposal_id,
                description,
                votes_for: 0,
                votes_against: 0,
                deadline: (now + VOTING_PERIOD) as u64,
                finalized: false,
            };
            Ok(
                ContractView {
                    proposals: self.proposals.push(p),
                    next_proposal_id: (self.next_proposal_id + 1) as u64,
                    ..self
                },
            )
        }
    }

    pub open spec fn propose_in_range(self, now: u64) -> bool {
        &&& now + VOTING_PERIOD <= u64::MAX
        &&& self.next_proposal_id < u64::MAX
    }

    /// `caller` adds its current balance to one side of proposal `id` at time `now`.
    pub open spec fn vote(self, caller: Seq<char>, id: u64, support: bool, now: u64) -> Result<
        ContractView,
        ContractError,
    > {
        if self.balance(caller) == 0 {
            Err(ContractError::NoVotingPower)
        } else if id >= self.proposals.len() {
            Err(ContractError::ProposalNotFound)
        } else if now >= self.proposals[id as int].deadline {
            Err(ContractError::VotingEnded)
        } else {
            let p = self.proposals[id as int];
            let weight = self.balance(caller);
            let q = if support {
                ProposalView { votes_for: (p.votes_for + weight) as u128, ..p }
            } else {
                ProposalView { votes_against: (p.votes_against + weight) as u128, ..p }
            };
            Ok(ContractView { proposals: self.proposals.update(id as int, q), ..self })
        }
    }

    pub open spec fn vote_in_range(self, caller: Seq<char>, id: u64, support: bool) -> bool {
        id < self.proposals.len() ==> {
            let p = self.proposals[id as int];
            if support {
                p.votes_for + self.balance(caller) <= u128::MAX
            } else {
                p.votes_against + self.balance(caller) <= u128::MAX
            }
        }
    }

    /// The administrator closes proposal `id` at time `now`.
    pub open spec fn finalize_proposal(self, caller: Seq<char>, id: u64, now: u64) -> Result<
        ContractView,
        ContractError,
    > {
        if caller != self.admin {
            Err(ContractError::NotAdmin)
        } else if id >= self.proposals.len() {
            Err(ContractError::ProposalNotFound)
        } else if now < self.proposals[id as int].deadline {
            Err(ContractError::VotingNotEnded)
        } else if self.proposals[id as int].finalized {
            Err(ContractError::AlreadyFinalized)
        } else {
            let p = self.proposals[id as int];
            Ok(
                ContractView {
                    proposals: self.proposals.update(id as int, ProposalView { finalized: true, ..p }),
                    ..self
                },
            )
        }
    }
}

/// The outcome of an operation as the model states it: the state it leaves on
/// success, or the error.
pub open spec fn outcome(r: Result<(), ContractError>, post: ContractView) -> Result<
    ContractView,
    ContractError,
> {
    match r {
        Ok(()) => Ok(post),
        Err(e) => Err(e),
    }
}

/// A change that leaves referrals, proposals and tips alone keeps a state well formed.
pub proof fn lemma_same_structure(s: ContractView, t: ContractView)
    requires
        s.well_formed(),
        t.referrals == s.referrals,
        t.proposals == s.proposals,
        t.next_proposal_id == s.next_proposal_id,
        t.tip_totals == s.tip_totals,
        t.top_tipper == s.top_tipper,
    ensures
        t.well_formed(),
{
}

/// Raising the lifetime total of `sender` to `total` and moving the top tipper
/// as `next_top_tipper` says keeps the top tipper maximal.
pub proof fn lemma_tip_keeps_top_tipper_maximal(
    s: ContractView,
    u: ContractView,
    sender: Seq<char>,
    total: u128,
)
    requires
        s.top_tipper_is_maximal(),
        total >= s.tip_total(sender),
        u.tip_totals == s.tip_totals.insert(sender, total),
        u.top_tipper == s.next_top_tipper(sender, total),
    ensures
        u.top_tipper_is_maximal(),
{
    let t2 = s.tip_totals.insert(sender, total);
    match s.top_tipper {
        None => {
            assert forall|a: Seq<char>| #[trigger] amount_of(t2, a) <= amount_of(t2, sender) by {
                if a != sender {
                    assert(!s.tip_totals.contains_key(a));
                }
            }
        },
        Some(t) => {
            let top = s.next_top_tipper(sender, total)->Some_0;
            assert forall|a: Seq<char>| #[trigger] amount_of(t2, a) <= amount_of(t2, top) by {
                assert(amount_of(s.tip_totals, a) <= amount_of(s.tip_totals, t));
                assert(amount_of(s.tip_totals, sender) <= amount_of(s.tip_totals, t));
            }
        },
    }
}

} // verus!
