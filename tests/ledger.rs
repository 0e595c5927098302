use community_token::{Contract, ContractError};

const MIN: u128 = 10_000_000_000_000_000;
const WEEK: u64 = 604_800_000_000_000;

fn funded(accounts: &[(&str, u128)]) -> Contract {
    let mut c = Contract::new("admin");
    for (name, amount) in accounts {
        // Amounts below the minimum deposit are set up by depositing the
        // minimum on top and withdrawing it again.
        c.mint(name, MIN + amount).unwrap();
        c.withdraw(name, MIN).unwrap();
    }
    c
}

#[test]
fn new_contract_is_empty() {
    let c = Contract::new("admin");
    assert_eq!(c.get_balance("alice"), 0);
    assert_eq!(c.get_total_supply(), 0);
    assert_eq!(c.get_top_tipper(), None);
    assert_eq!(c.get_next_proposal_id(), 0);
    assert!(c.get_proposal(0).is_none());
}

#[test]
fn mint_minimum_without_referral() {
    let mut c = Contract::new("admin");
    assert_eq!(c.mint("a", 10_000_000_000_000_000), Ok(()));
    assert_eq!(c.get_balance("a"), 10_000_000_000_000_000);
    assert_eq!(c.get_total_supply(), 10_000_000_000_000_000);
}

#[test]
fn mint_below_minimum_is_refused() {
    let mut c = Contract::new("admin");
    assert_eq!(c.mint("a", MIN - 1), Err(ContractError::InsufficientDeposit));
    assert_eq!(c.get_balance("a"), 0);
    assert_eq!(c.get_total_supply(), 0);
}

#[test]
fn mint_increases_balance_and_supply_by_deposit() {
    let mut c = Contract::new("admin");
    c.mint("a", MIN).unwrap();
    c.mint("b", 3 * MIN + 7).unwrap();
    c.mint("a", 2 * MIN).unwrap();
    assert_eq!(c.get_balance("a"), 3 * MIN);
    assert_eq!(c.get_balance("b"), 3 * MIN + 7);
    assert_eq!(c.get_total_supply(), 6 * MIN + 7);
}

#[test]
fn mint_with_referral_pays_one_percent_rounded_down() {
    let mut c = Contract::new("admin");
    c.register_referral("a", "r").unwrap();
    c.mint("a", MIN + 199).unwrap();
    let bonus = (MIN + 199) / 100;
    assert_eq!(bonus, 100_000_000_000_001);
    assert_eq!(c.get_balance("a"), MIN + 199);
    assert_eq!(c.get_balance("r"), bonus);
    assert_eq!(c.get_total_supply(), MIN + 199 + bonus);
}

#[test]
fn tip_conserves_balances_and_supply() {
    let mut c = funded(&[("s", 500), ("r", 20)]);
    let supply = c.get_total_supply();
    assert_eq!(c.tip("s", "r", 120), Ok(()));
    assert_eq!(c.get_balance("s"), 380);
    assert_eq!(c.get_balance("r"), 140);
    assert_eq!(c.get_total_supply(), supply);
    assert_eq!(c.get_tip_total("s"), 120);
    assert_eq!(c.get_tip_total("r"), 0);
}

#[test]
fn self_tip_keeps_balance_and_counts_as_tip() {
    let mut c = funded(&[("s", 50)]);
    let supply = c.get_total_supply();
    assert_eq!(c.tip("s", "s", 50), Ok(()));
    assert_eq!(c.get_balance("s"), 50);
    assert_eq!(c.get_total_supply(), supply);
    assert_eq!(c.get_tip_total("s"), 50);
    assert_eq!(c.get_top_tipper(), Some("s".to_string()));
}

#[test]
fn tip_beyond_balance_is_refused() {
    let mut c = funded(&[("s", 10)]);
    assert_eq!(c.tip("s", "r", 11), Err(ContractError::InsufficientBalance));
    assert_eq!(c.get_balance("s"), 10);
    assert_eq!(c.get_balance("r"), 0);
    assert_eq!(c.get_tip_total("s"), 0);
    assert_eq!(c.get_top_tipper(), None);
}

#[test]
fn top_tipper_follows_strictly_greatest_total() {
    let mut c = funded(&[("a", 1000), ("b", 1000), ("d", 1000)]);
    c.tip("a", "x", 100).unwrap();
    assert_eq!(c.get_top_tipper(), Some("a".to_string()));
    c.tip("b", "x", 100).unwrap();
    // A tie keeps the earlier top tipper.
    assert_eq!(c.get_top_tipper(), Some("a".to_string()));
    c.tip("b", "x", 1).unwrap();
    assert_eq!(c.get_top_tipper(), Some("b".to_string()));
    c.tip("d", "x", 150).unwrap();
    assert_eq!(c.get_top_tipper(), Some("d".to_string()));
    c.tip("a", "x", 50).unwrap();
    // a reaches 150, level with d: d stays.
    assert_eq!(c.get_top_tipper(), Some("d".to_string()));
    c.tip("a", "x", 1).unwrap();
    assert_eq!(c.get_top_tipper(), Some("a".to_string()));
    assert_eq!(c.get_tip_total("a"), 151);
    assert_eq!(c.get_tip_total("b"), 101);
    assert_eq!(c.get_tip_total("d"), 150);
}

#[test]
fn zero_tip_by_first_tipper_sets_top_tipper() {
    let mut c = Contract::new("admin");
    assert_eq!(c.tip("z", "y", 0), Ok(()));
    assert_eq!(c.get_top_tipper(), Some("z".to_string()));
}

#[test]
fn withdraw_debits_balance_but_keeps_supply() {
    let mut c = Contract::new("admin");
    c.mint("a", 2 * MIN).unwrap();
    let t = c.withdraw("a", MIN + 5).unwrap();
    assert_eq!(t.to, "a");
    assert_eq!(t.amount, MIN + 5);
    assert_eq!(c.get_balance("a"), MIN - 5);
    assert_eq!(c.get_total_supply(), 2 * MIN);
    assert_eq!(c.withdraw("a", MIN).err(), Some(ContractError::InsufficientBalance));
}

#[test]
fn burn_debits_balance_and_supply() {
    let mut c = Contract::new("admin");
    c.mint("a", 2 * MIN).unwrap();
    assert_eq!(c.burn("a", MIN - 3), Ok(()));
    assert_eq!(c.get_balance("a"), MIN + 3);
    assert_eq!(c.get_total_supply(), MIN + 3);
    assert_eq!(c.burn("a", MIN + 4), Err(ContractError::InsufficientBalance));
    assert_eq!(c.get_balance("a"), MIN + 3);
}

#[test]
fn stake_then_unstake_restores_balances() {
    let mut c = funded(&[("a", 300)]);
    c.stake("a", 40).unwrap();
    let available = c.get_balance("a");
    let staked = c.get_staked("a");
    let supply = c.get_total_supply();
    assert_eq!(c.stake("a", 100), Ok(()));
    assert_eq!(c.get_balance("a"), available - 100);
    assert_eq!(c.get_staked("a"), staked + 100);
    assert_eq!(c.get_total_supply(), supply);
    assert_eq!(c.unstake("a", 100), Ok(()));
    assert_eq!(c.get_balance("a"), available);
    assert_eq!(c.get_staked("a"), staked);
    assert_eq!(c.get_total_supply(), supply);
}

#[test]
fn stake_beyond_balance_is_refused() {
    let mut c = funded(&[("a", 30)]);
    assert_eq!(c.stake("a", 31), Err(ContractError::InsufficientBalance));
    assert_eq!(c.get_staked("a"), 0);
}

#[test]
fn unstake_beyond_stake_is_refused() {
    let mut c = funded(&[("a", 30)]);
    c.stake("a", 10).unwrap();
    assert_eq!(c.unstake("a", 11), Err(ContractError::InsufficientStake));
    assert_eq!(c.get_staked("a"), 10);
    assert_eq!(c.get_balance("a"), 20);
}

#[test]
fn claim_rewards_pays_five_percent_each_time() {
    let mut c = funded(&[("a", 1000)]);
    c.stake("a", 999).unwrap();
    let supply = c.get_total_supply();
    assert_eq!(c.claim_rewards("a"), Ok(()));
    // 999 * 5 / 100 = 49, rounded down.
    assert_eq!(c.get_balance("a"), 1 + 49);
    assert_eq!(c.get_total_supply(), supply + 49);
    assert_eq!(c.claim_rewards("a"), Ok(()));
    assert_eq!(c.get_balance("a"), 1 + 98);
    assert_eq!(c.get_total_supply(), supply + 98);
    assert_eq!(c.get_staked("a"), 999);
}

#[test]
fn claim_rewards_below_twenty_pays_nothing() {
    let mut c = funded(&[("a", 19)]);
    c.stake("a", 19).unwrap();
    let supply = c.get_total_supply();
    assert_eq!(c.claim_rewards("a"), Ok(()));
    assert_eq!(c.get_balance("a"), 0);
    assert_eq!(c.get_total_supply(), supply);
}

#[test]
fn claim_rewards_on_large_stake_is_exact() {
    let mut c = Contract::new("admin");
    let big: u128 = u128::MAX / 4;
    c.mint("a", big).unwrap();
    c.stake("a", big).unwrap();
    c.claim_rewards("a").unwrap();
    let expected = big / 100 * 5 + (big % 100) * 5 / 100;
    assert_eq!(c.get_balance("a"), expected);
    assert_eq!(c.get_total_supply(), big + expected);
}

#[test]
fn claim_rewards_without_stake_is_refused() {
    let mut c = funded(&[("a", 100)]);
    assert_eq!(c.claim_rewards("a"), Err(ContractError::NoStake));
    assert_eq!(c.get_balance("a"), 100);
}

#[test]
fn referral_is_registered_once() {
    let mut c = Contract::new("admin");
    assert_eq!(c.register_referral("a", "b"), Ok(()));
    assert_eq!(c.register_referral("a", "c"), Err(ContractError::AlreadyRegistered));
    assert_eq!(c.register_referral("a", "a"), Err(ContractError::SelfReferral));
    c.mint("a", 100 * MIN).unwrap();
    assert_eq!(c.get_balance("b"), MIN);
    assert_eq!(c.get_balance("c"), 0);
}

#[test]
fn self_referral_is_refused() {
    let mut c = Contract::new("admin");
    assert_eq!(c.register_referral("a", "a"), Err(ContractError::SelfReferral));
    c.mint("a", MIN).unwrap();
    assert_eq!(c.get_total_supply(), MIN);
}

#[test]
fn propose_is_admin_only() {
    let mut c = Contract::new("admin");
    assert_eq!(c.propose("eve", "take over".to_string(), 5), Err(ContractError::NotAdmin));
    assert_eq!(c.get_next_proposal_id(), 0);
    assert_eq!(c.propose("admin", "first".to_string(), 5), Ok(()));
    assert_eq!(c.propose("admin", "second".to_string(), 9), Ok(()));
    assert_eq!(c.get_next_proposal_id(), 2);
    let p = c.get_proposal(1).unwrap();
    assert_eq!(p.id(), 1);
    assert_eq!(p.description(), "second");
    assert_eq!(p.deadline(), 9 + WEEK);
    assert_eq!(p.votes_for(), 0);
    assert_eq!(p.votes_against(), 0);
    assert!(!p.finalized());
}

#[test]
fn votes_add_up_before_deadline() {
    let mut c = funded(&[("v", 70)]);
    c.propose("admin", "p".to_string(), 1000).unwrap();
    assert_eq!(c.vote("v", 0, true, 1000), Ok(()));
    assert_eq!(c.vote("v", 0, true, 1000 + WEEK - 1), Ok(()));
    assert_eq!(c.vote("v", 0, false, 2000), Ok(()));
    let p = c.get_proposal(0).unwrap();
    assert_eq!(p.votes_for(), 140);
    assert_eq!(p.votes_against(), 70);
}

#[test]
fn vote_after_deadline_is_refused() {
    let mut c = funded(&[("v", 70)]);
    c.propose("admin", "p".to_string(), 1000).unwrap();
    assert_eq!(c.vote("v", 0, true, 1000 + WEEK), Err(ContractError::VotingEnded));
    assert_eq!(c.get_proposal(0).unwrap().votes_for(), 0);
}

#[test]
fn vote_without_balance_is_refused() {
    let mut c = Contract::new("admin");
    c.propose("admin", "p".to_string(), 0).unwrap();
    assert_eq!(c.vote("nobody", 0, true, 1), Err(ContractError::NoVotingPower));
}

#[test]
fn vote_on_missing_proposal_is_refused() {
    let mut c = funded(&[("v", 1)]);
    assert_eq!(c.vote("v", 0, true, 1), Err(ContractError::ProposalNotFound));
}

#[test]
fn finalize_waits_for_deadline_and_happens_once() {
    let mut c = Contract::new("admin");
    c.propose("admin", "p".to_string(), 100).unwrap();
    assert_eq!(c.finalize_proposal("admin", 0, 99 + WEEK), Err(ContractError::VotingNotEnded));
    assert!(!c.get_proposal(0).unwrap().finalized());
    assert_eq!(c.finalize_proposal("v", 0, 100 + WEEK), Err(ContractError::NotAdmin));
    assert_eq!(c.finalize_proposal("admin", 1, 100 + WEEK), Err(ContractError::ProposalNotFound));
    assert_eq!(c.finalize_proposal("admin", 0, 100 + WEEK), Ok(()));
    assert!(c.get_proposal(0).unwrap().finalized());
    assert_eq!(c.finalize_proposal("admin", 0, 200 + WEEK), Err(ContractError::AlreadyFinalized));
}

#[test]
fn governance_scenario() {
    let mut c = funded(&[("yes", 100), ("no", 30)]);
    c.propose("admin", "upgrade X".to_string(), 0).unwrap();
    c.vote("yes", 0, true, 10).unwrap();
    c.vote("no", 0, false, 20).unwrap();
    c.finalize_proposal("admin", 0, WEEK).unwrap();
    let p = c.get_proposal(0).unwrap();
    assert_eq!(p.description(), "upgrade X");
    assert_eq!(p.votes_for(), 100);
    assert_eq!(p.votes_against(), 30);
    assert!(p.finalized());
}

#[test]
fn nft_mint_needs_more_than_one_unit() {
    let c = Contract::new("admin");
    assert_eq!(c.nft_mint("a", 2, "meta"), Ok(()));
    assert_eq!(c.nft_mint("a", 1, "meta"), Err(ContractError::InsufficientDeposit));
    assert_eq!(c.nft_mint("a", 0, "meta"), Err(ContractError::InsufficientDeposit));
}

#[test]
fn overflow_checks_report_limits() {
    let mut c = Contract::new("admin");
    c.mint("a", u128::MAX - 10).unwrap();
    assert!(!c.mint_fits("a", MIN));
    assert!(c.mint_fits("a", MIN - 1));
    assert!(c.tip_fits("a", "a", 5));
    assert!(c.tip_fits("a", "b", 5));
    assert!(c.stake_fits("a", 5));
    assert!(c.burn_fits("a", 5));
    assert!(c.propose_fits(0));
    assert!(!c.propose_fits(u64::MAX));
    c.stake("a", u128::MAX - 10).unwrap();
    assert!(c.unstake_fits("a", 1));
    assert!(!c.claim_fits("a"));
    assert!(c.vote_fits("a", 0, true));
}

#[test]
fn error_messages_are_distinct() {
    let all = [
        ContractError::InsufficientDeposit,
        ContractError::InsufficientBalance,
        ContractError::InsufficientStake,
        ContractError::NoStake,
        ContractError::NoVotingPower,
        ContractError::NotAdmin,
        ContractError::SelfReferral,
        ContractError::AlreadyRegistered,
        ContractError::ProposalNotFound,
        ContractError::VotingEnded,
        ContractError::VotingNotEnded,
        ContractError::SelfReferralOrReferrerMissing,
        ContractError::AlreadyFinalized,
    ];
    for (i, a) in all.iter().enumerate() {
        for b in all.iter().skip(i + 1) {
            assert_ne!(a.message(), b.message());
        }
    }
    assert_eq!(ContractError::InsufficientDeposit.message(), "Deposit too low");
}

#[test]
fn operation_sequence_keeps_accounts_consistent() {
    let names = ["a", "b", "c", "d"];
    let mut c = Contract::new("admin");
    let mut seed: u64 = 0x2545_f491_4f6c_dd1d;
    let mut next = move |bound: u64| {
        seed = seed.wrapping_mul(6364136223846793005).wrapping_add(1442695040888963407);
        (seed >> 33) % bound
    };
    let mut minted: u128 = 0;
    let mut burned: u128 = 0;
    for step in 0..400u64 {
        let who = names[next(4) as usize];
        let other = names[next(4) as usize];
        let amount = next(3 * MIN as u64 / 1_000_000) as u128 * 1_000_000;
        let supply = c.get_total_supply();
        let before: Vec<(u128, u128)> =
            names.iter().map(|n| (c.get_balance(n), c.get_staked(n))).collect();
        let result = match next(8) {
            0 => c.mint(who, amount),
            1 => c.tip(who, other, amount),
            2 => c.withdraw(who, amount).map(|_| ()),
            3 => c.burn(who, amount),
            4 => c.stake(who, amount),
            5 => c.unstake(who, amount),
            6 => c.claim_rewards(who),
            _ => c.register_referral(who, other),
        };
        let after: Vec<(u128, u128)> =
            names.iter().map(|n| (c.get_balance(n), c.get_staked(n))).collect();
        if result.is_err() {
            assert_eq!(before, after, "step {}", step);
            assert_eq!(supply, c.get_total_supply());
        } else if c.get_total_supply() >= supply {
            minted += c.get_total_supply() - supply;
        } else {
            burned += supply - c.get_total_supply();
        }
    }
    assert_eq!(c.get_total_supply(), minted - burned);
    let held: u128 = names.iter().map(|n| c.get_balance(n) + c.get_staked(n)).sum();
    assert!(held <= c.get_total_supply());
}
