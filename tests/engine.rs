use airdrop::{
    mutate_state, read_state, CanisterError, Code, EthereumAddress, Identity, Index, RewardType,
    State,
};

fn id(s: &str) -> Identity {
    Identity(s.to_string())
}

fn code(s: &str) -> Code {
    Code(s.to_string())
}

fn addr(s: &str) -> EthereumAddress {
    EthereumAddress(s.to_string())
}

fn engine(depth: u64, children: u64) -> State {
    State::init(id("backend"), 100, depth, children, 1000, id("admin"))
}

fn codes(list: &[&str]) -> Vec<String> {
    list.iter().map(|c| c.to_string()).collect()
}

/// Manager M holds a root code issued from a pool of `pool` codes.
fn with_root(depth: u64, children: u64, pool: &[&str]) -> State {
    let mut s = engine(depth, children);
    s.add_codes(codes(pool)).unwrap();
    s.add_manager(id("M")).unwrap();
    let info = s.generate_code(&id("M")).unwrap();
    assert_eq!(info.code.0, pool[0]);
    s
}

#[test]
fn init_sets_parameters_and_admin() {
    let s = engine(2, 3);
    assert_eq!(s.get_state_parameters().unwrap(), (100, 2, 3, 1000));
    assert_eq!(s.principals_admins.len(), 1);
    assert_eq!(s.principals_admins[0].0, "admin");
    assert!(!s.killed);
}

#[test]
fn generate_code_issues_root_at_depth_zero() {
    let mut s = engine(1, 2);
    s.add_codes(codes(&["C1"])).unwrap();
    s.add_manager(id("M")).unwrap();
    let info = s.generate_code(&id("M")).unwrap();
    assert_eq!(info.code.0, "C1");
    assert_eq!(info.codes_generated, 1);
    assert_eq!(info.codes_redeemed, 0);
    assert_eq!(s.codes.len(), 1);
    assert_eq!(s.codes[0].1.depth, 0);
    assert_eq!(s.codes[0].1.parent_principal.0, "M");
    assert!(!s.codes[0].1.redeemed);
    assert!(s.pre_generated_codes.is_empty());
}

#[test]
fn generate_code_with_empty_pool_fails() {
    let mut s = engine(1, 2);
    s.add_manager(id("M")).unwrap();
    assert!(matches!(s.generate_code(&id("M")), Err(CanisterError::NoMoreCodes)));
    assert!(s.codes.is_empty());
}

#[test]
fn scenario_redeem_root_code_with_children() {
    let mut s = with_root(1, 2, &["C1", "C2", "C3"]);
    let info = s.redeem_code(&id("U"), &code("C1"), addr("0xAAA")).unwrap();
    assert_eq!(info.code.0, "C1");
    assert_eq!(info.ethereum_address.0, "0xAAA");
    assert_eq!(info.principal.0, "U");
    assert!(!info.tokens_transferred);
    let children = info.children.unwrap();
    assert_eq!(children.len(), 2);
    assert_eq!(children[0].0 .0, "C2");
    assert_eq!(children[1].0 .0, "C3");
    assert!(!children[0].1 && !children[1].1);
    // the parent is a manager: counted, no referral entry
    assert_eq!(s.principals_managers[0].1.codes_redeemed, 1);
    assert_eq!(s.airdrop_reward.len(), 1);
    let entry = &s.airdrop_reward[0];
    assert_eq!(entry.eth_address.0, "0xAAA");
    assert_eq!(entry.amount.0, 25);
    assert_eq!(entry.reward_type, RewardType::Airdrop);
    assert!(!entry.transferred);
    // children sit one level deeper, parented by the redeemer
    assert_eq!(s.codes.len(), 3);
    for k in 1..3 {
        assert_eq!(s.codes[k].1.depth, 1);
        assert_eq!(s.codes[k].1.parent_principal.0, "U");
        assert!(!s.codes[k].1.redeemed);
    }
    assert!(s.codes[0].1.redeemed);
    assert!(s.pre_generated_codes.is_empty());
}

#[test]
fn scenario_redeem_fails_whole_when_pool_short() {
    let mut s = with_root(1, 2, &["C1", "C2"]);
    let r = s.redeem_code(&id("U"), &code("C1"), addr("0xAAA"));
    assert!(matches!(r, Err(CanisterError::NoMoreCodes)));
    assert!(s.principals_users.is_empty());
    assert!(s.airdrop_reward.is_empty());
    assert!(!s.codes[0].1.redeemed);
    assert_eq!(s.principals_managers[0].1.codes_redeemed, 0);
    assert_eq!(s.pre_generated_codes.len(), 1);
}

#[test]
fn leaf_code_issues_no_children() {
    let mut s = with_root(0, 2, &["C1"]);
    let info = s.redeem_code(&id("U"), &code("C1"), addr("0xAAA")).unwrap();
    assert!(info.children.is_none());
    assert_eq!(s.codes.len(), 1);
}

#[test]
fn scenario_second_redeem_refused() {
    let mut s = with_root(1, 1, &["C1", "C2", "C3"]);
    s.redeem_code(&id("U"), &code("C1"), addr("0xAAA")).unwrap();
    let r = s.redeem_code(&id("U"), &code("C1"), addr("0xAAA"));
    assert!(matches!(r, Err(CanisterError::CannotRegisterMultipleTimes)));
    let r = s.redeem_code(&id("U"), &code("C2"), addr("0xAAA"));
    assert!(matches!(r, Err(CanisterError::CannotRegisterMultipleTimes)));
    assert_eq!(s.airdrop_reward.len(), 1);
    assert_eq!(s.principals_users.len(), 1);
}

#[test]
fn scenario_manager_cannot_redeem() {
    let mut s = with_root(1, 1, &["C1", "C2"]);
    let r = s.redeem_code(&id("M"), &code("C1"), addr("0xMMM"));
    assert!(matches!(r, Err(CanisterError::ManagersCannotParticipateInTheAirdrop)));
    assert!(s.airdrop_reward.is_empty());
}

#[test]
fn unknown_code_refused() {
    let mut s = with_root(1, 1, &["C1", "C2"]);
    let r = s.redeem_code(&id("U"), &code("nope"), addr("0xAAA"));
    assert!(matches!(r, Err(CanisterError::CodeNotFound)));
    // a pooled code is not issued yet
    let r = s.redeem_code(&id("U"), &code("C2"), addr("0xAAA"));
    assert!(matches!(r, Err(CanisterError::CodeNotFound)));
}

#[test]
fn redeemed_code_refused_for_another_user() {
    let mut s = with_root(1, 1, &["C1", "C2"]);
    s.redeem_code(&id("U"), &code("C1"), addr("0xAAA")).unwrap();
    let r = s.redeem_code(&id("V"), &code("C1"), addr("0xBBB"));
    assert!(matches!(r, Err(CanisterError::CodeAlreadyRedeemed)));
    assert_eq!(s.airdrop_reward.len(), 1);
}

#[test]
fn child_redemption_pays_referral_to_parent_user() {
    let mut s = with_root(2, 1, &["C1", "C2", "C3"]);
    s.redeem_code(&id("U"), &code("C1"), addr("0xAAA")).unwrap();
    let info = s.redeem_code(&id("V"), &code("C2"), addr("0xBBB")).unwrap();
    assert_eq!(info.children.unwrap()[0].0 .0, "C3");
    assert_eq!(s.airdrop_reward.len(), 3);
    let referral = &s.airdrop_reward[1];
    assert_eq!(referral.eth_address.0, "0xAAA");
    assert_eq!(referral.amount.0, 25);
    assert_eq!(referral.reward_type, RewardType::Referral);
    let airdrop = &s.airdrop_reward[2];
    assert_eq!(airdrop.eth_address.0, "0xBBB");
    assert_eq!(airdrop.reward_type, RewardType::Airdrop);
    assert_eq!(s.codes[2].1.depth, 2);
    // the manager counter moves only for its own codes
    assert_eq!(s.principals_managers[0].1.codes_redeemed, 1);
}

#[test]
fn scenario_ledger_pagination() {
    let mut s = with_root(2, 1, &["C1", "C2", "C3"]);
    s.redeem_code(&id("U"), &code("C1"), addr("0xAAA")).unwrap();
    s.redeem_code(&id("V"), &code("C2"), addr("0xBBB")).unwrap();
    let all = s.get_airdrop(Index(0)).unwrap();
    assert_eq!(all.len(), 3);
    assert_eq!(all[0].0, Index(0));
    assert_eq!(all[0].1 .0, "0xAAA");
    assert_eq!(all[0].2 .0, 25);
    assert_eq!(all[2].0, Index(2));
    s.put_airdrop(vec![Index(0)]).unwrap();
    assert!(s.airdrop_reward[0].transferred);
    assert!(!s.airdrop_reward[1].transferred);
    let rest = s.get_airdrop(Index(1)).unwrap();
    assert_eq!(rest.len(), 2);
    assert_eq!(rest[0].0, Index(1));
    assert_eq!(rest[0].1 .0, "0xAAA");
    assert_eq!(rest[1].0, Index(2));
    assert_eq!(rest[1].1 .0, "0xBBB");
    assert!(s.get_airdrop(Index(3)).unwrap().is_empty());
    assert!(s.get_airdrop(Index(u64::MAX)).unwrap().is_empty());
}

#[test]
fn listing_twice_gives_same_rows() {
    let mut s = with_root(1, 1, &["C1", "C2"]);
    s.redeem_code(&id("U"), &code("C1"), addr("0xAAA")).unwrap();
    let first = s.get_airdrop(Index(0)).unwrap();
    s.put_airdrop(vec![Index(0)]).unwrap();
    let second = s.get_airdrop(Index(0)).unwrap();
    assert_eq!(first.len(), second.len());
    for (a, b) in first.iter().zip(second.iter()) {
        assert_eq!(a.0, b.0);
        assert_eq!(a.1 .0, b.1 .0);
        assert_eq!(a.2, b.2);
    }
}

#[test]
fn acknowledging_unknown_index_changes_nothing() {
    let mut s = with_root(1, 1, &["C1", "C2"]);
    s.redeem_code(&id("U"), &code("C1"), addr("0xAAA")).unwrap();
    let r = s.put_airdrop(vec![Index(0), Index(5)]);
    assert!(matches!(r, Err(CanisterError::TransactionUnkown)));
    assert!(!s.airdrop_reward[0].transferred);
}

#[test]
fn scenario_kill_switch() {
    let mut s = with_root(1, 1, &["C1", "C2"]);
    s.kill_canister().unwrap();
    let r = s.redeem_code(&id("U"), &code("C1"), addr("0xAAA"));
    assert!(matches!(r, Err(CanisterError::CanisterKilled)));
    // even a request that would fail for another reason reports the flag
    let r = s.redeem_code(&id("M"), &code("nope"), addr("0xAAA"));
    assert!(matches!(r, Err(CanisterError::CanisterKilled)));
    assert!(matches!(s.get_airdrop(Index(0)), Err(CanisterError::CanisterKilled)));
    assert!(matches!(s.put_airdrop(vec![]), Err(CanisterError::CanisterKilled)));
    assert!(matches!(s.get_stats(), Err(CanisterError::CanisterKilled)));
    assert!(matches!(s.get_code(&id("U")), Err(CanisterError::CanisterKilled)));
    assert!(matches!(s.generate_code(&id("M")), Err(CanisterError::CanisterKilled)));
    assert!(matches!(s.set_total_tokens(5), Err(CanisterError::CanisterKilled)));
    assert!(matches!(s.get_state_parameters(), Err(CanisterError::CanisterKilled)));
    s.bring_caninster_back_to_life().unwrap();
    assert!(s.redeem_code(&id("U"), &code("C1"), addr("0xAAA")).is_ok());
}

#[test]
fn add_codes_skips_known_codes() {
    let mut s = with_root(1, 1, &["C1"]);
    s.add_codes(codes(&["C1", "C2", "C2", "C3"])).unwrap();
    let pool: Vec<&str> = s.pre_generated_codes.iter().map(|c| c.0.as_str()).collect();
    assert_eq!(pool, vec!["C2", "C3"]);
}

#[test]
fn add_manager_twice_is_a_duplicate_key() {
    let mut s = engine(1, 1);
    s.add_manager(id("M")).unwrap();
    match s.add_manager(id("M")) {
        Err(CanisterError::DuplicateKey(k)) => assert_eq!(k, "M"),
        _ => panic!("expected a duplicate key"),
    }
    assert_eq!(s.principals_managers.len(), 1);
    assert!(s.is_manager(&id("M")));
    assert!(!s.is_manager(&id("U")));
}

#[test]
fn add_admin_once_per_identity() {
    let mut s = engine(1, 1);
    s.add_admin(id("A2")).unwrap();
    s.add_admin(id("A2")).unwrap();
    assert_eq!(s.principals_admins.len(), 2);
}

#[test]
fn remove_principal_lets_identity_redeem_again() {
    let mut s = with_root(1, 0, &["C1", "C2"]);
    s.add_manager(id("M2")).unwrap();
    s.redeem_code(&id("U"), &code("C1"), addr("0xAAA")).unwrap();
    assert!(matches!(
        s.remove_principal_airdrop(&id("V")),
        Err(CanisterError::PrincipalNotParticipatingInAirdrop)
    ));
    s.remove_principal_airdrop(&id("U")).unwrap();
    assert!(s.principals_users.is_empty());
    s.generate_code(&id("M2")).unwrap();
    assert!(s.redeem_code(&id("U"), &code("C2"), addr("0xAAA")).is_ok());
}

#[test]
fn remove_managers_and_admins() {
    let mut s = engine(1, 1);
    s.add_manager(id("M1")).unwrap();
    s.add_manager(id("M2")).unwrap();
    s.add_manager(id("M3")).unwrap();
    s.remove_managers(vec![id("M2"), id("nobody")]).unwrap();
    let left: Vec<&str> = s.principals_managers.iter().map(|m| m.0 .0.as_str()).collect();
    assert_eq!(left, vec!["M1", "M3"]);
    s.add_admin(id("A2")).unwrap();
    s.remove_admins(vec![id("admin")]).unwrap();
    assert_eq!(s.principals_admins.len(), 1);
    assert_eq!(s.principals_admins[0].0, "A2");
}

#[test]
fn clean_up_keeps_first_occurrences() {
    let mut s = engine(1, 1);
    s.pre_generated_codes = vec![code("A"), code("B"), code("A"), code("C"), code("B")];
    s.principals_managers = vec![
        (id("M"), airdrop::PrincipalState { codes_generated: 1, codes_redeemed: 0 }),
        (id("N"), airdrop::PrincipalState { codes_generated: 2, codes_redeemed: 0 }),
        (id("M"), airdrop::PrincipalState { codes_generated: 3, codes_redeemed: 0 }),
    ];
    s.clean_up().unwrap();
    let pool: Vec<&str> = s.pre_generated_codes.iter().map(|c| c.0.as_str()).collect();
    assert_eq!(pool, vec!["A", "B", "C"]);
    assert_eq!(s.principals_managers.len(), 2);
    assert_eq!(s.principals_managers[0].1.codes_generated, 1);
    assert_eq!(s.principals_managers[1].0 .0, "N");
    // a second pass changes nothing
    s.clean_up().unwrap();
    assert_eq!(s.pre_generated_codes.len(), 3);
}

#[test]
fn get_code_reports_children_and_transfer() {
    let mut s = with_root(2, 2, &["C1", "C2", "C3", "C4", "C5"]);
    s.redeem_code(&id("U"), &code("C1"), addr("0xAAA")).unwrap();
    s.redeem_code(&id("V"), &code("C3"), addr("0xBBB")).unwrap();
    let info = s.get_code(&id("U")).unwrap();
    assert_eq!(info.code.0, "C1");
    assert_eq!(info.ethereum_address.0, "0xAAA");
    assert!(!info.tokens_transferred);
    let children = info.children.unwrap();
    assert_eq!(children.len(), 2);
    assert_eq!(children[0].0 .0, "C2");
    assert!(!children[0].1);
    assert_eq!(children[1].0 .0, "C3");
    assert!(children[1].1);
    s.put_airdrop(vec![Index(0)]).unwrap();
    assert!(s.get_code(&id("U")).unwrap().tokens_transferred);
    // a referral to V's address does not count as V's airdrop
    assert!(!s.get_code(&id("V")).unwrap().tokens_transferred);
    assert!(matches!(s.get_code(&id("W")), Err(CanisterError::CodeNotFound)));
}

#[test]
fn get_code_without_children_is_none() {
    let mut s = with_root(0, 2, &["C1"]);
    s.redeem_code(&id("U"), &code("C1"), addr("0xAAA")).unwrap();
    assert!(s.get_code(&id("U")).unwrap().children.is_none());
}

#[test]
fn stats_aggregate_ledger_and_pool() {
    let mut s = with_root(2, 1, &["C1", "C2", "C3", "C4"]);
    s.redeem_code(&id("U"), &code("C1"), addr("0xAAA")).unwrap();
    s.redeem_code(&id("V"), &code("C2"), addr("0xBBB")).unwrap();
    s.put_airdrop(vec![Index(1)]).unwrap();
    let st = s.get_stats().unwrap();
    assert_eq!(st.total_code_generated, 1);
    assert_eq!(st.total_code_redeemed, 2);
    assert_eq!(st.total_referral, 1);
    assert_eq!(st.total_code_left, 1);
    assert_eq!(st.total_tokens_distributed, 75);
    assert_eq!(st.total_tokens_left, 925);
    assert_eq!(st.total_transaction_done, 1);
    assert_eq!(st.total_airdrop_transaction_waiting, 2);
}

#[test]
fn stats_tokens_left_saturates() {
    let mut s = with_root(1, 1, &["C1", "C2"]);
    s.set_total_tokens(10).unwrap();
    s.redeem_code(&id("U"), &code("C1"), addr("0xAAA")).unwrap();
    let st = s.get_stats().unwrap();
    assert_eq!(st.total_tokens_distributed, 25);
    assert_eq!(st.total_tokens_left, 0);
}

#[test]
fn state_slot_accessors() {
    let mut slot = Some(engine(1, 1));
    let depth = read_state(&slot, |s: &State| s.maximum_depth);
    assert_eq!(depth, 1);
    let r = mutate_state(&mut slot, |mut s: State| {
        let r = s.set_total_tokens(7);
        (s, r.is_ok())
    });
    assert!(r);
    assert_eq!(slot.unwrap().total_tokens, 7);
}

#[test]
fn ledger_entries_keep_their_index() {
    let mut s = with_root(3, 1, &["C1", "C2", "C3", "C4"]);
    s.redeem_code(&id("U"), &code("C1"), addr("0xAAA")).unwrap();
    let before: Vec<(String, u64)> =
        s.airdrop_reward.iter().map(|t| (t.eth_address.0.clone(), t.amount.0)).collect();
    s.put_airdrop(vec![Index(0)]).unwrap();
    s.redeem_code(&id("V"), &code("C2"), addr("0xBBB")).unwrap();
    s.redeem_code(&id("W"), &code("C3"), addr("0xCCC")).unwrap();
    assert_eq!(s.airdrop_reward.len(), 5);
    for (k, (a, amount)) in before.iter().enumerate() {
        assert_eq!(&s.airdrop_reward[k].eth_address.0, a);
        assert_eq!(s.airdrop_reward[k].amount.0, *amount);
    }
    assert!(s.airdrop_reward[0].transferred);
    let rows = s.get_airdrop(Index(0)).unwrap();
    for (k, row) in rows.iter().enumerate() {
        assert_eq!(row.0, Index(k as u64));
    }
}

#[test]
fn manager_counters_follow_issues_and_redemptions() {
    let mut s = engine(0, 0);
    s.add_codes(codes(&["C1", "C2"])).unwrap();
    s.add_manager(id("M")).unwrap();
    s.generate_code(&id("M")).unwrap();
    let info = s.generate_code(&id("M")).unwrap();
    assert_eq!(info.code.0, "C2");
    assert_eq!(info.codes_generated, 2);
    s.redeem_code(&id("U"), &code("C2"), addr("0xAAA")).unwrap();
    assert_eq!(s.principals_managers[0].1.codes_generated, 2);
    assert_eq!(s.principals_managers[0].1.codes_redeemed, 1);
    assert!(s.codes[1].1.redeemed);
    assert!(!s.codes[0].1.redeemed);
}
