//! The ledger itself: every operation checks its preconditions first and then
//! changes the state exactly as the model in `model` says.
use vstd::hash_map::StringHashMap;
use vstd::prelude::*;

use crate::error::ContractError;
use crate::model::{
    amount_of, lemma_same_structure, lemma_tip_keeps_top_tipper_maximal, outcome, reward_for,
    ContractView, ProposalView, MIN_DEPOSIT, REFERRAL_DIVISOR, REWARD_PERCENT, VOTING_PERIOD,
};

verus! {

/// A governance proposal.
pub struct Proposal {
    id: u64,
    description: String,
    votes_for: u128,
    votes_against: u128,
    deadline: u64,
    finalized: bool,
}

impl View for Proposal {
    type V = ProposalView;

    closed spec fn view(&self) -> ProposalView {
        ProposalView {
            id: self.id,
            description: self.description@,
            votes_for: self.votes_for,
            votes_against: self.votes_against,
            deadline: self.deadline,
            finalized: self.finalized,
        }
    }
}

impl Proposal {
    pub fn id(&self) -> (r: u64)
        ensures
            r == self@.id,
    {
        self.id
    }

    pub fn description(&self) -> (r: &str)
        ensures
            r@ == self@.description,
    {
        self.description.as_str()
    }

    pub fn votes_for(&self) -> (r: u128)
        ensures
            r == self@.votes_for,
    {
        self.votes_for
    }

    pub fn votes_against(&self) -> (r: u128)
        ensures
            r == self@.votes_against,
    {
        self.votes_against
    }

    pub fn deadline(&self) -> (r: u64)
        ensures
            r == self@.deadline,
    {
        self.deadline
    }

    pub fn finalized(&self) -> (r: bool)
        ensures
            r == self@.finalized,
    {
        self.finalized
    }
}

/// A payment out of the ledger's custody that the host is to carry out.
pub struct Transfer {
    pub to: String,
    pub amount: u128,
}

/// The ledger state: balances, supply, referrals, stakes, proposals and tips.
///
/// The total supply counts every token ever credited by a mint, a referral
/// bonus or a reward, less what was burned. A withdrawal pays tokens out of the
/// ledger without reducing it, so after one the supply exceeds what the
/// accounts hold.
pub struct Contract {
    balances: StringHashMap<u128>,
    total_supply: u128,
    admin: String,
    referrals: StringHashMap<String>,
    staked: StringHashMap<u128>,
    proposals: Vec<Proposal>,
    next_proposal_id: u64,
    tip_totals: StringHashMap<u128>,
    top_tipper: Option<String>,
}

/// The abstract value of an optional account name.
pub open spec fn name_of(o: Option<String>) -> Option<Seq<char>> {
    match o {
        Some(s) => Some(s@),
        None => None,
    }
}

impl View for Contract {
    type V = ContractView;

    closed spec fn view(&self) -> ContractView {
        ContractView {
            balances: self.balances@,
            total_supply: self.total_supply,
            admin: self.admin@,
            referrals: self.referrals@.map_values(|s: String| s@),
            staked: self.staked@,
            proposals: self.proposals@.map_values(|p: Proposal| p@),
            next_proposal_id: self.next_proposal_id,
            tip_totals: self.tip_totals@,
            top_tipper: name_of(self.top_tipper),
        }
    }
}

/// Reads the amount that `m` records for `a`, zero where it records none.
fn amount_in(m: &StringHashMap<u128>, a: &str) -> (r: u128)
    ensures
        r == amount_of(m@, a@),
{
    match m.get(a) {
        Some(v) => *v,
        None => 0,
    }
}

impl Contract {
    /// The invariant that every operation preserves (see `ContractView::well_formed`).
    pub closed spec fn well_formed(&self) -> bool {
        self@.well_formed()
    }

    /// A fresh ledger administered by `admin`.
    pub fn new(admin: &str) -> (r: Contract)
        ensures
            r@ == ContractView::initial(admin@),
            r.well_formed(),
    {
        let r = Contract {
            balances: StringHashMap::new(),
            total_supply: 0,
            admin: admin.to_owned(),
            referrals: StringHashMap::new(),
            staked: StringHashMap::new(),
            proposals: Vec::new(),
            next_proposal_id: 0,
            tip_totals: StringHashMap::new(),
            top_tipper: None,
        };
        assert(r@.referrals =~= Map::empty());
        assert(r@.proposals =~= Seq::empty());
        r
    }

    /// The available balance of `account`, zero for an unknown account.
    pub fn get_balance(&self, account: &str) -> (r: u128)
        ensures
            r == self@.balance(account@),
    {
        amount_in(&self.balances, account)
    }

    pub fn get_total_supply(&self) -> (r: u128)
        ensures
            r == self@.total_supply,
    {
        self.total_supply
    }

    /// Credits `amount` to the balance of `a`.
    fn credit(&mut self, a: &str, amount: u128)
        requires
            old(self)@.balance(a@) + amount <= u128::MAX,
        ensures
            final(self)@ == old(self)@.credit(a@, amount as int),
    {
        let b = amount_in(&self.balances, a);
        self.balances.insert(a.to_owned(), b + amount);
        assert(final(self)@ =~= old(self)@.credit(a@, amount as int));
    }

    /// Debits `amount` from the balance of `a`.
    fn debit(&mut self, a: &str, amount: u128)
        requires
            old(self)@.balance(a@) >= amount,
        ensures
            final(self)@ == old(self)@.credit(a@, -amount),
    {
        let b = amount_in(&self.balances, a);
        self.balances.insert(a.to_owned(), b - amount);
        assert(final(self)@ =~= old(self)@.credit(a@, -amount));
    }

    /// Deposits `deposit` for `caller`, who gets it credited; a registered
    /// referrer of `caller` is credited one percent of it on top, and both
    /// credits are newly minted.
    pub fn mint(&mut self, caller: &str, deposit: u128) -> (r: Result<(), ContractError>)
        requires
            old(self).well_formed(),
            old(self)@.mint_in_range(caller@, deposit),
        ensures
            final(self).well_formed(),
            outcome(r, final(self)@) == old(self)@.mint(caller@, deposit),
            r is Err ==> final(self)@ == old(self)@,
            r is Ok <==> deposit >= MIN_DEPOSIT,
    {
        if deposit < MIN_DEPOSIT {
            return Err(ContractError::InsufficientDeposit);
        }
        self.credit(caller, deposit);
        self.total_supply = self.total_supply + deposit;
        let referrer = match self.referrals.get(caller) {
            Some(r) => Some(r.clone()),
            None => None,
        };
        match referrer {
            Some(referrer) => {
                assert(referrer@ == old(self)@.referrals[caller@]);
                let bonus = deposit / REFERRAL_DIVISOR;
                self.credit(referrer.as_str(), bonus);
                self.total_supply = self.total_supply + bonus;
            },
            None => {},
        }
        proof {
            lemma_same_structure(old(self)@, self@);
        }
        Ok(())
    }

    /// `sender` hands `amount` of its balance to `receiver`. The supply is
    /// unchanged; the lifetime tip total of `sender` grows by `amount`, and
    /// `sender` becomes the top tipper when there is none yet or when its new
    /// total strictly exceeds that of the current one.
    pub fn tip(&mut self, sender: &str, receiver: &str, amount: u128) -> (r: Result<
        (),
        ContractError,
    >)
        requires
            old(self).well_formed(),
            old(self)@.tip_in_range(sender@, receiver@, amount),
        ensures
            final(self).well_formed(),
            outcome(r, final(self)@) == old(self)@.tip(sender@, receiver@, amount),
            r is Err ==> final(self)@ == old(self)@,
            r is Ok <==> old(self)@.balance(sender@) >= amount,
    {
        let sender_balance = amount_in(&self.balances, sender);
        if sender_balance < amount {
            return Err(ContractError::InsufficientBalance);
        }
        self.debit(sender, amount);
        self.credit(receiver, amount);
        let total = amount_in(&self.tip_totals, sender) + amount;
        self.tip_totals.insert(sender.to_owned(), total);
        let replace = match &self.top_tipper {
            Some(current) => total > amount_in(&self.tip_totals, current.as_str()),
            None => true,
        };
        if replace {
            self.top_tipper = Some(sender.to_owned());
        }
        proof {
            assert(self@ =~= old(self)@.tip(sender@, receiver@, amount)->Ok_0);
            lemma_tip_keeps_top_tipper_maximal(old(self)@, self@, sender@, total);
        }
        Ok(())
    }

    /// Sets the staked balance of `a` to `value`.
    fn set_stake(&mut self, a: &str, value: u128)
        ensures
            final(self)@ == old(self)@.adjust_stake(a@, value - old(self)@.staked_of(a@)),
    {
        self.staked.insert(a.to_owned(), value);
        assert(final(self)@ =~= old(self)@.adjust_stake(a@, value - old(self)@.staked_of(a@)));
    }

    /// `caller` takes `amount` out of its balance; the returned transfer pays
    /// it to `caller` outside the ledger. The total supply is left as it is.
    pub fn withdraw(&mut self, caller: &str, amount: u128) -> (r: Result<Transfer, ContractError>)
        requires
            old(self).well_formed(),
        ensures
            final(self).well_formed(),
            r is Ok <==> old(self)@.balance(caller@) >= amount,
            r matches Ok(t) ==> t.to@ == caller@ && t.amount == amount && old(self)@.withdraw(
                caller@,
                amount,
            ) == Ok::<ContractView, ContractError>(final(self)@),
            r matches Err(e) ==> old(self)@.withdraw(caller@, amount) == Err::<
                ContractView,
                ContractError,
            >(e) && final(self)@ == old(self)@,
    {
        if amount_in(&self.balances, caller) < amount {
            return Err(ContractError::InsufficientBalance);
        }
        self.debit(caller, amount);
        proof {
            lemma_same_structure(old(self)@, self@);
        }
        Ok(Transfer { to: caller.to_owned(), amount })
    }

    /// `caller` destroys `amount` of its balance, and the supply shrinks by it.
    pub fn burn(&mut self, caller: &str, amount: u128) -> (r: Result<(), ContractError>)
        requires
            old(self).well_formed(),
            old(self)@.burn_in_range(caller@, amount),
        ensures
            final(self).well_formed(),
            outcome(r, final(self)@) == old(self)@.burn(caller@, amount),
            r is Err ==> final(self)@ == old(self)@,
            r is Ok <==> old(self)@.balance(caller@) >= amount,
    {
        if amount_in(&self.balances, caller) < amount {
            return Err(ContractError::InsufficientBalance);
        }
        self.debit(caller, amount);
        self.total_supply = self.total_supply - amount;
        proof {
            lemma_same_structure(old(self)@, self@);
        }
        Ok(())
    }

    /// `caller` moves `amount` from its available to its staked balance.
    pub fn stake(&mut self, caller: &str, amount: u128) -> (r: Result<(), ContractError>)
        requires
            old(self).well_formed(),
            old(self)@.stake_in_range(caller@, amount),
        ensures
            final(self).well_formed(),
            outcome(r, final(self)@) == old(self)@.stake(caller@, amount),
            r is Err ==> final(self)@ == old(self)@,
            r is Ok <==> old(self)@.balance(caller@) >= amount,
    {
        if amount_in(&self.balances, caller) < amount {
            return Err(ContractError::InsufficientBalance);
        }
        self.debit(caller, amount);
        let current = amount_in(&self.staked, caller);
        self.set_stake(caller, current + amount);
        proof {
            lemma_same_structure(old(self)@, self@);
        }
        Ok(())
    }

    /// `caller` moves `amount` from its staked back to its available balance.
    pub fn unstake(&mut self, caller: &str, amount: u128) -> (r: Result<(), ContractError>)
        requires
            old(self).well_formed(),
            old(self)@.unstake_in_range(caller@, amount),
        ensures
            final(self).well_formed(),
            outcome(r, final(self)@) == old(self)@.unstake(caller@, amount),
            r is Err ==> final(self)@ == old(self)@,
            r is Ok <==> old(self)@.staked_of(caller@) >= amount,
    {
        let current = amount_in(&self.staked, caller);
        if current < amount {
            return Err(ContractError::InsufficientStake);
        }
        self.set_stake(caller, current - amount);
        self.credit(caller, amount);
        proof {
            lemma_same_structure(old(self)@, self@);
        }
        Ok(())
    }

    /// Five percent of `staked`, rounded down, computed without an
    /// intermediate product that could leave the range of `u128`.
    fn reward_of(staked: u128) -> (r: u128)
        ensures
            r == reward_for(staked),
    {
        let r = staked / 100 * REWARD_PERCENT + staked % 100 * REWARD_PERCENT / 100;
        assert(r == reward_for(staked)) by (nonlinear_arith)
            requires
                r == staked / 100 * 5 + staked % 100 * 5 / 100,
                staked >= 0,
        ;
        r
    }

    /// `caller` is paid five percent of its current stake, rounded down, as
    /// newly minted tokens. Nothing limits how often this may be claimed.
    pub fn claim_rewards(&mut self, caller: &str) -> (r: Result<(), ContractError>)
        requires
            old(self).well_formed(),
            old(self)@.claim_in_range(caller@),
        ensures
            final(self).well_formed(),
            outcome(r, final(self)@) == old(self)@.claim_rewards(caller@),
            r is Err ==> final(self)@ == old(self)@,
            r is Ok <==> old(self)@.staked_of(caller@) > 0,
    {
        let staked = amount_in(&self.staked, caller);
        if staked == 0 {
            return Err(ContractError::NoStake);
        }
        let reward = Self::reward_of(staked);
        self.credit(caller, reward);
        self.total_supply = self.total_supply + reward;
        proof {
            lemma_same_structure(old(self)@, self@);
        }
        Ok(())
    }

    /// `caller` names `referrer` as its referrer. This is allowed once per
    /// account, and never with the account itself as referrer.
    pub fn register_referral(&mut self, caller: &str, referrer: &str) -> (r: Result<
        (),
        ContractError,
    >)
        requires
            old(self).well_formed(),
        ensures
            final(self).well_formed(),
            outcome(r, final(self)@) == old(self)@.register_referral(caller@, referrer@),
            r is Err ==> final(self)@ == old(self)@,
    {
        let caller_name = caller.to_owned();
        let referrer_name = referrer.to_owned();
        if caller_name == referrer_name {
            return Err(ContractError::SelfReferral);
        }
        if self.referrals.contains_key(caller) {
            return Err(ContractError::AlreadyRegistered);
        }
        self.referrals.insert(caller_name, referrer_name);
        assert(self@.referrals =~= old(self)@.referrals.insert(caller@, referrer@));
        assert(self@ =~= old(self)@.register_referral(caller@, referrer@)->Ok_0);
        Ok(())
    }

    /// The account with the greatest lifetime tip total, if anyone has tipped.
    pub fn get_top_tipper(&self) -> (r: Option<String>)
        ensures
            name_of(r) == self@.top_tipper,
    {
        self.top_tipper.clone()
    }

    /// The staked balance of `account`, zero for an unknown account.
    pub fn get_staked(&self, account: &str) -> (r: u128)
        ensures
            r == self@.staked_of(account@),
    {
        amount_in(&self.staked, account)
    }

    /// The lifetime tip total of `account`, zero for an unknown account.
    pub fn get_tip_total(&self, account: &str) -> (r: u128)
        ensures
            r == self@.tip_total(account@),
    {
        amount_in(&self.tip_totals, account)
    }

    /// The administrator opens a proposal described by `description`, open for
    /// votes from `now` until `now` plus seven days, under the next identifier.
    pub fn propose(&mut self, caller: &str, description: String, now: u64) -> (r: Result<
        (),
        ContractError,
    >)
        requires
            old(self).well_formed(),
            old(self)@.propose_in_range(now),
        ensures
            final(self).well_formed(),
            outcome(r, final(self)@) == old(self)@.propose(caller@, description@, now),
            r is Err ==> final(self)@ == old(self)@,
            r is Ok <==> caller@ == old(self)@.admin,
    {
        if caller.to_owned() != self.admin {
            return Err(ContractError::NotAdmin);
        }
        let proposal = Proposal {
            id: self.next_proposal_id,
            description,
            votes_for: 0,
            votes_against: 0,
            deadline: now + VOTING_PERIOD,
            finalized: false,
        };
        let ghost added = proposal@;
        self.proposals.push(proposal);
        self.next_proposal_id = self.next_proposal_id + 1;
        assert(self@.proposals =~= old(self)@.proposals.push(added));
        assert(self@ =~= old(self)@.propose(caller@, description@, now)->Ok_0);
        Ok(())
    }

    /// `caller` adds its current available balance to the votes for or against
    /// proposal `proposal_id`, which must still be open at time `now`. Each
    /// call counts again.
    pub fn vote(&mut self, caller: &str, proposal_id: u64, support: bool, now: u64) -> (r: Result<
        (),
        ContractError,
    >)
        requires
            old(self).well_formed(),
            old(self)@.vote_in_range(caller@, proposal_id, support),
        ensures
            final(self).well_formed(),
            outcome(r, final(self)@) == old(self)@.vote(caller@, proposal_id, support, now),
            r is Err ==> final(self)@ == old(self)@,
    {
        let weight = amount_in(&self.balances, caller);
        if weight == 0 {
            return Err(ContractError::NoVotingPower);
        }
        if proposal_id >= self.proposals.len() as u64 {
            return Err(ContractError::ProposalNotFound);
        }
        let i = proposal_id as usize;
        if now >= self.proposals[i].deadline {
            return Err(ContractError::VotingEnded);
        }
        if support {
            self.proposals[i].votes_for = self.proposals[i].votes_for + weight;
        } else {
            self.proposals[i].votes_against = self.proposals[i].votes_against + weight;
        }
        assert(self@.proposals =~= old(self)@.proposals.update(i as int, self.proposals@[i as int]@));
        assert(self@ =~= old(self)@.vote(caller@, proposal_id, support, now)->Ok_0);
        Ok(())
    }

    /// The administrator closes proposal `proposal_id` once its deadline has
    /// been reached at time `now`. A proposal is closed at most once.
    pub fn finalize_proposal(&mut self, caller: &str, proposal_id: u64, now: u64) -> (r: Result<
        (),
        ContractError,
    >)
        requires
            old(self).well_formed(),
        ensures
            final(self).well_formed(),
            outcome(r, final(self)@) == old(self)@.finalize_proposal(caller@, proposal_id, now),
            r is Err ==> final(self)@ == old(self)@,
    {
        if caller.to_owned() != self.admin {
            return Err(ContractError::NotAdmin);
        }
        if proposal_id >= self.proposals.len() as u64 {
            return Err(ContractError::ProposalNotFound);
        }
        let i = proposal_id as usize;
        if now < self.proposals[i].deadline {
            return Err(ContractError::VotingNotEnded);
        }
        if self.proposals[i].finalized {
            return Err(ContractError::AlreadyFinalized);
        }
        self.proposals[i].finalized = true;
        assert(self@.proposals =~= old(self)@.proposals.update(i as int, self.proposals@[i as int]@));
        assert(self@ =~= old(self)@.finalize_proposal(caller@, proposal_id, now)->Ok_0);
        Ok(())
    }

    /// The proposal with identifier `proposal_id`, if one was created.
    pub fn get_proposal(&self, proposal_id: u64) -> (r: Option<&Proposal>)
        requires
            self.well_formed(),
        ensures
            r is Some <==> proposal_id < self@.proposals.len(),
            r matches Some(p) ==> p@ == self@.proposals[proposal_id as int],
    {
        if proposal_id >= self.proposals.len() as u64 {
            None
        } else {
            Some(&self.proposals[proposal_id as usize])
        }
    }

    /// The identifier that the next proposal will receive.
    pub fn get_next_proposal_id(&self) -> (r: u64)
        ensures
            r == self@.next_proposal_id,
    {
        self.next_proposal_id
    }

    /// Accepts an NFT mint request from `caller` when more than one unit of
    /// payment is attached; nothing in the ledger changes either way.
    #[allow(unused_variables)]
    pub fn nft_mint(&self, caller: &str, deposit: u128, metadata: &str) -> (r: Result<
        (),
        ContractError,
    >)
        ensures
            r is Ok <==> deposit > 1,
            r matches Err(e) ==> e == ContractError::InsufficientDeposit,
    {
        if deposit > 1 {
            Ok(())
        } else {
            Err(ContractError::InsufficientDeposit)
        }
    }

    /// Whether `mint(caller, deposit)` keeps every amount within `u128`.
    pub fn mint_fits(&self, caller: &str, deposit: u128) -> (r: bool)
        ensures
            r == self@.mint_in_range(caller@, deposit),
    {
        if deposit < MIN_DEPOSIT {
            return true;
        }
        let bonus = deposit / REFERRAL_DIVISOR;
        let balance = amount_in(&self.balances, caller);
        if balance > u128::MAX - deposit || self.total_supply > u128::MAX - deposit
            || self.total_supply + deposit > u128::MAX - bonus {
            return false;
        }
        match self.referrals.get(caller) {
            Some(referrer) => amount_in(&self.balances, referrer.as_str()) <= u128::MAX - bonus,
            None => true,
        }
    }

    /// Whether `tip(sender, receiver, amount)` keeps every amount within `u128`.
    pub fn tip_fits(&self, sender: &str, receiver: &str, amount: u128) -> (r: bool)
        ensures
            r == self@.tip_in_range(sender@, receiver@, amount),
    {
        if amount_in(&self.balances, sender) < amount {
            return true;
        }
        if sender.to_owned() != receiver.to_owned() && amount_in(&self.balances, receiver)
            > u128::MAX - amount {
            return false;
        }
        amount_in(&self.tip_totals, sender) <= u128::MAX - amount
    }

    /// Whether `burn(caller, amount)` keeps the supply from going below zero.
    pub fn burn_fits(&self, caller: &str, amount: u128) -> (r: bool)
        ensures
            r == self@.burn_in_range(caller@, amount),
    {
        amount_in(&self.balances, caller) < amount || self.total_supply >= amount
    }

    /// Whether `stake(caller, amount)` keeps every amount within `u128`.
    pub fn stake_fits(&self, caller: &str, amount: u128) -> (r: bool)
        ensures
            r == self@.stake_in_range(caller@, amount),
    {
        amount_in(&self.balances, caller) < amount || amount_in(&self.staked, caller) <= u128::MAX
            - amount
    }

    /// Whether `unstake(caller, amount)` keeps every amount within `u128`.
    pub fn unstake_fits(&self, caller: &str, amount: u128) -> (r: bool)
        ensures
            r == self@.unstake_in_range(caller@, amount),
    {
        amount_in(&self.staked, caller) < amount || amount_in(&self.balances, caller) <= u128::MAX
            - amount
    }

    /// Whether `claim_rewards(caller)` keeps every amount within `u128`.
    pub fn claim_fits(&self, caller: &str) -> (r: bool)
        ensures
            r == self@.claim_in_range(caller@),
    {
        let reward = Self::reward_of(amount_in(&self.staked, caller));
        amount_in(&self.balances, caller) <= u128::MAX - reward && self.total_supply <= u128::MAX
            - reward
    }

    /// Whether `propose` at time `now` keeps the deadline and the next
    /// identifier within `u64`.
    pub fn propose_fits(&self, now: u64) -> (r: bool)
        ensures
            r == self@.propose_in_range(now),
    {
        now <= u64::MAX - VOTING_PERIOD && self.next_proposal_id < u64::MAX
    }

    /// Whether `vote(caller, proposal_id, support, ..)` keeps the tally within `u128`.
    pub fn vote_fits(&self, caller: &str, proposal_id: u64, support: bool) -> (r: bool)
        requires
            self.well_formed(),
        ensures
            r == self@.vote_in_range(caller@, proposal_id, support),
    {
        if proposal_id >= self.proposals.len() as u64 {
            return true;
        }
        let p = &self.proposals[proposal_id as usize];
        let weight = amount_in(&self.balances, caller);
        if support {
            p.votes_for <= u128::MAX - weight
        } else {
            p.votes_against <= u128::MAX - weight
        }
    }
}

} // verus!
