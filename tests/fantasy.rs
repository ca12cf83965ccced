use playible::error::ContractError;
use playible::fantasy::{query_unlock_token, query_use_token, FantasyContract, InstantiateMsg, LatestRandomResponse};
use playible::msg::{Coin, NftInfoResponse, OutMsg, TokenExtension, TokenMsg};
use playible::time::Timestamp;

fn s(x: &str) -> String {
    x.to_string()
}

fn contract() -> FantasyContract {
    let mut c = FantasyContract::instantiate(InstantiateMsg {
        stable_denom: s("uusd"),
        anchor_addr: s("anchor"),
        terrand_addr: s("terrand"),
        athlete_addr: s("athletes"),
        admin_addr: s("admin"),
        marketplace_addr: s("market"),
        pack_len: 3,
        pack_price: 100,
        common_cap: 2,
        uncommon_cap: 1,
        rare_cap: 1,
        legendary_cap: 1,
    });
    c.execute_add_athlete(vec![s("LBJ"), s("KD"), s("SC")]);
    c
}

fn pay(amount: u128) -> Vec<Coin> {
    vec![Coin { denom: s("uusd"), amount }]
}

fn minted_id(m: &OutMsg) -> String {
    match m {
        OutMsg::Token { msg: TokenMsg::Mint { token_id, .. }, .. } => token_id.clone(),
        _ => panic!("not a mint"),
    }
}

fn token(usage: u64, unlock_secs: Option<u64>) -> NftInfoResponse {
    NftInfoResponse {
        token_uri: Some(s("uri")),
        extension: TokenExtension {
            athlete_id: s("0"),
            rarity: s("C"),
            is_locked: unlock_secs.is_some(),
            unlock_date: unlock_secs.map(|x| Timestamp { nanos: x * 1_000_000_000 }),
            usage,
        },
    }
}

#[test]
fn add_athlete_assigns_consecutive_ids() {
    let c = contract();
    assert_eq!(c.athlete_count(), 3);
    assert_eq!(c.find_athlete(&s("2")), Some(2));
    assert_eq!(c.find_athlete(&s("3")), None);
    assert_eq!(c.find_athlete(&s("01")), None);
    assert_eq!(c.athletes[1].symbol, "KD");
    assert_eq!(c.athletes[1].common_count, 0);
}

#[test]
fn purchase_mints_one_token_per_chunk() {
    let mut c = contract();
    let msgs = c.execute_purchase(&s("buyer"), &pay(100), "000001002").unwrap();
    let ids: Vec<String> = msgs.iter().map(minted_id).collect();
    assert_eq!(ids, vec![s("LBJC1"), s("KDC1"), s("SCC1")]);
    assert_eq!(
        msgs[0],
        OutMsg::Token {
            contract_addr: s("athletes"),
            msg: TokenMsg::Mint {
                token_id: s("LBJC1"),
                owner: s("buyer"),
                token_uri: None,
                extension: TokenExtension {
                    athlete_id: s("0"),
                    rarity: s("C"),
                    is_locked: false,
                    unlock_date: None,
                    usage: 3,
                },
            },
        }
    );
    assert_eq!(c.athletes[0].common_count, 1);
    assert_eq!(c.athletes[1].common_count, 1);
    assert_eq!(c.athletes[2].common_count, 1);
}

#[test]
fn repeated_draws_of_one_athlete_get_distinct_ids() {
    let mut c = contract();
    let msgs = c.execute_purchase(&s("buyer"), &pay(100), "000003").unwrap();
    let ids: Vec<String> = msgs.iter().map(minted_id).collect();
    assert_eq!(ids, vec![s("LBJC1"), s("LBJC2")]);
    assert_eq!(c.athletes[0].common_count, 2);
}

#[test]
fn capped_athletes_leave_the_draw() {
    let mut c = contract();
    c.execute_purchase(&s("buyer"), &pay(100), "000003").unwrap();
    assert_eq!(c.mintable_list(playible::rarity::Rarity::Common), vec![1, 2]);
    let msgs = c.execute_purchase(&s("buyer"), &pay(100), "000001").unwrap();
    let ids: Vec<String> = msgs.iter().map(minted_id).collect();
    assert_eq!(ids, vec![s("KDC1"), s("SCC1")]);
}

#[test]
fn a_draw_past_the_cap_fails_and_changes_nothing() {
    let mut c = contract();
    assert_eq!(c.execute_purchase(&s("buyer"), &pay(100), "000000000"), Err(ContractError::Capped {}));
    assert_eq!(c.athletes[0].common_count, 0);
}

#[test]
fn wrong_payment_is_rejected_without_state_change() {
    let mut c = contract();
    let wrong = ContractError::WrongAmount { amount: 100, denom: s("uusd") };
    assert_eq!(c.execute_purchase(&s("buyer"), &pay(99), "000"), Err(wrong.clone()));
    assert_eq!(c.execute_purchase(&s("buyer"), &pay(101), "000"), Err(wrong.clone()));
    assert_eq!(c.execute_purchase(&s("buyer"), &vec![], "000"), Err(wrong.clone()));
    let two = vec![Coin { denom: s("uusd"), amount: 100 }, Coin { denom: s("uusd"), amount: 100 }];
    assert_eq!(c.execute_purchase(&s("buyer"), &two, "000"), Err(wrong.clone()));
    let other = vec![Coin { denom: s("uluna"), amount: 100 }];
    assert_eq!(c.execute_purchase(&s("buyer"), &other, "000"), Err(wrong));
    assert!(c.athletes.iter().all(|a| a.common_count == 0));
}

#[test]
fn purchase_without_mintable_athletes_or_with_a_bad_seed_fails() {
    let mut empty = FantasyContract::instantiate(InstantiateMsg {
        stable_denom: s("uusd"),
        anchor_addr: s("a"),
        terrand_addr: s("t"),
        athlete_addr: s("n"),
        admin_addr: s("ad"),
        marketplace_addr: s("m"),
        pack_len: 1,
        pack_price: 5,
        common_cap: 1,
        uncommon_cap: 1,
        rare_cap: 1,
        legendary_cap: 1,
    });
    assert_eq!(empty.execute_purchase(&s("b"), &pay(5), "000"), Err(ContractError::Capped {}));
    let mut c = contract();
    assert_eq!(c.execute_purchase(&s("b"), &pay(100), "00z"), Err(ContractError::InvalidMessage {}));
    assert_eq!(c.execute_purchase(&s("b"), &pay(100), ""), Ok(vec![]));
}

#[test]
fn mintability_ids_and_counts_per_athlete() {
    let mut c = contract();
    assert_eq!(c.query_token_mintable(&s("0"), &s("U")), Ok(true));
    assert_eq!(c.generate_token_id(&s("1"), &s("L")), Ok(s("KDL1")));
    assert_eq!(c.update_token_count(&s("0"), &s("U")), Ok(()));
    assert_eq!(c.query_token_mintable(&s("0"), &s("U")), Ok(false));
    assert_eq!(c.update_token_count(&s("0"), &s("U")), Err(ContractError::Capped {}));
    assert_eq!(c.generate_token_id(&s("0"), &s("U")), Ok(s("LBJU2")));
    assert_eq!(c.query_token_mintable(&s("7"), &s("U")), Err(ContractError::DoesNotExist {}));
    assert_eq!(c.update_token_count(&s("7"), &s("U")), Err(ContractError::DoesNotExist {}));
}

#[test]
fn upgrade_same_token_burns_then_mints_the_next_tier() {
    let mut c = contract();
    let msgs = c
        .execute_upgrade_same_token(&s("owner"), &s("fantasy"), &s("U"), &vec![s("LBJC1"), s("LBJC2")], &s("0"))
        .unwrap();
    assert_eq!(msgs.len(), 3);
    assert_eq!(
        msgs[0],
        OutMsg::Token {
            contract_addr: s("athletes"),
            msg: TokenMsg::TransferNft { recipient: s("fantasy"), token_id: s("LBJC1") },
        }
    );
    assert_eq!(minted_id(&msgs[2]), "LBJU1");
    match &msgs[2] {
        OutMsg::Token { msg: TokenMsg::Mint { extension, owner, .. }, .. } => {
            assert_eq!(extension.usage, 5);
            assert_eq!(owner, "owner");
        },
        _ => panic!("not a mint"),
    }
    assert_eq!(c.athletes[0].uncommon_count, 1);
    assert_eq!(
        c.execute_upgrade_same_token(&s("owner"), &s("fantasy"), &s("U"), &vec![], &s("0")),
        Err(ContractError::Capped {})
    );
    assert_eq!(
        c.execute_upgrade_same_token(&s("owner"), &s("fantasy"), &s("U"), &vec![], &s("9")),
        Err(ContractError::DoesNotExist {})
    );
}

#[test]
fn upgrade_rand_token_draws_from_the_first_chunk() {
    let mut c = contract();
    let msgs = c.execute_upgrade_rand_token(&s("o"), &s("fantasy"), &s("R"), &vec![s("A"), s("B")], "001fff").unwrap();
    assert_eq!(msgs.len(), 3);
    assert_eq!(minted_id(&msgs[2]), "KDR1");
    assert_eq!(c.athletes[1].rare_count, 1);
    let msgs = c.execute_upgrade_rand_token(&s("o"), &s("fantasy"), &s("R"), &vec![], "001").unwrap();
    assert_eq!(minted_id(&msgs[0]), "SCR1");
    assert_eq!(c.execute_upgrade_rand_token(&s("o"), &s("f"), &s("R"), &vec![], ""), Err(ContractError::InvalidMessage {}));
    c.execute_upgrade_rand_token(&s("o"), &s("f"), &s("R"), &vec![], "000").unwrap();
    assert_eq!(c.execute_upgrade_rand_token(&s("o"), &s("f"), &s("R"), &vec![], "000"), Err(ContractError::Capped {}));
}

#[test]
fn lock_sets_the_unlock_date_and_spends_a_usage() {
    let c = contract();
    let now = Timestamp { nanos: 1_000 * 1_000_000_000 };
    let m = c.execute_lock_token(&s("LBJC1"), &token(3, None), now, &s("hour")).unwrap();
    match m {
        OutMsg::Token { contract_addr, msg: TokenMsg::UpdateToken { token_id, token_uri, extension } } => {
            assert_eq!(contract_addr, "athletes");
            assert_eq!(token_id, "LBJC1");
            assert_eq!(token_uri, Some(s("uri")));
            assert!(extension.is_locked);
            assert_eq!(extension.unlock_date, Some(Timestamp { nanos: 4_600 * 1_000_000_000 }));
            assert_eq!(extension.usage, 2);
        },
        _ => panic!("not an update"),
    }
    let week = c.execute_lock_token(&s("x"), &token(1, None), now, &s("week")).unwrap();
    match week {
        OutMsg::Token { msg: TokenMsg::UpdateToken { extension, .. }, .. } => {
            assert_eq!(extension.unlock_date, Some(Timestamp { nanos: 605_800 * 1_000_000_000 }));
        },
        _ => panic!("not an update"),
    }
    let other = c.execute_lock_token(&s("x"), &token(1, None), now, &s("fortnight")).unwrap();
    match other {
        OutMsg::Token { msg: TokenMsg::UpdateToken { extension, .. }, .. } => {
            assert_eq!(extension.unlock_date, Some(Timestamp { nanos: 1_060 * 1_000_000_000 }));
        },
        _ => panic!("not an update"),
    }
}

#[test]
fn lock_needs_a_usage_and_a_representable_date() {
    let c = contract();
    let now = Timestamp { nanos: 0 };
    assert_eq!(c.execute_lock_token(&s("t"), &token(0, None), now, &s("day")), Err(ContractError::UsageCapped {}));
    let late = Timestamp { nanos: u64::MAX - 10 };
    assert_eq!(c.execute_lock_token(&s("t"), &token(2, None), late, &s("day")), Err(ContractError::Overflow {}));
    assert!(query_use_token(&token(1, None)));
    assert!(!query_use_token(&token(0, None)));
}

#[test]
fn unlock_waits_for_the_unlock_date() {
    let c = contract();
    let t = token(2, Some(4_600));
    assert!(!query_unlock_token(&t, Timestamp { nanos: 4_599 * 1_000_000_000 }));
    assert!(query_unlock_token(&t, Timestamp { nanos: 4_600 * 1_000_000_000 }));
    assert!(query_unlock_token(&token(2, None), Timestamp { nanos: 0 }));
    assert_eq!(
        c.execute_unlock_token(&s("t"), &t, Timestamp { nanos: 4_599 * 1_000_000_000 }),
        Err(ContractError::Locked {})
    );
    match c.execute_unlock_token(&s("t"), &t, Timestamp { nanos: 5_000 * 1_000_000_000 }).unwrap() {
        OutMsg::Token { msg: TokenMsg::UpdateToken { extension, .. }, .. } => {
            assert!(!extension.is_locked);
            assert_eq!(extension.unlock_date, None);
            assert_eq!(extension.usage, 2);
        },
        _ => panic!("not an update"),
    }
}

#[test]
fn admin_operations() {
    let mut c = contract();
    assert_eq!(c.execute_transfer(&s("eve"), 5), Err(ContractError::Unauthorized {}));
    assert_eq!(
        c.execute_transfer(&s("admin"), 5),
        Ok(OutMsg::BankSend { to_address: s("admin"), amount: Coin { denom: s("uusd"), amount: 5 } })
    );
    assert_eq!(
        c.execute_token_turnover(&s("admin"), &s("next")),
        Ok(OutMsg::Token { contract_addr: s("athletes"), msg: TokenMsg::UpdateMinter { minter: s("next") } })
    );
    assert_eq!(c.execute_token_turnover(&s("eve"), &s("next")), Err(ContractError::Unauthorized {}));
    assert_eq!(c.execute_update_cw721(&s("eve"), &s("n2")), Err(ContractError::Unauthorized {}));
    assert_eq!(c.execute_update_cw721(&s("admin"), &s("n2")), Ok(()));
    assert_eq!(c.info.athlete_addr, "n2");
    assert_eq!(c.execute_update_marketplace(&s("admin"), &s("m2")), Ok(()));
    assert_eq!(c.info.marketplace_addr, "m2");
    assert_eq!(c.query_pack_price(), 100);
}

#[test]
fn deposit_forwards_the_first_uusd_coin_less_tax() {
    let mut c = contract();
    let funds = vec![Coin { denom: s("uluna"), amount: 7 }, Coin { denom: s("uusd"), amount: 1_000_000 }];
    let m = c.execute_deposit(&funds, 5_000_000_000_000_000, 1_000_000).unwrap();
    assert_eq!(
        m,
        OutMsg::AnchorDeposit { contract_addr: s("anchor"), funds: Coin { denom: s("uusd"), amount: 995_024 } }
    );
    assert_eq!(c.total_deposit(), 995_024);
    c.execute_deposit(&pay(1_000), 0, 0).unwrap();
    assert_eq!(c.total_deposit(), 996_024);
    c.execute_deposit(&vec![], 0, 0).unwrap();
    assert_eq!(c.total_deposit(), 996_024);
    assert_eq!(c.execute_deposit(&pay(u64::MAX as u128), 0, 0), Err(ContractError::Overflow {}));
    assert_eq!(c.total_deposit(), 996_024);
}

#[test]
fn redeem_sends_amount_over_one_plus_rate() {
    let c = contract();
    assert_eq!(
        c.execute_redeem(1_000, 250_000_000_000_000_000, &s("aust")),
        Ok(OutMsg::AnchorRedeem { token_contract: s("aust"), amount: 800, anchor_addr: s("anchor") })
    );
    assert_eq!(c.execute_redeem(1_000, u128::MAX, &s("aust")), Err(ContractError::Overflow {}));
}

#[test]
fn deposit_bookkeeping() {
    let mut c = contract();
    assert_eq!(c.increase_deposit(10), Ok(10));
    assert_eq!(c.decrease_deposit(4), Ok(6));
    assert_eq!(c.decrease_deposit(7), Err(ContractError::Overflow {}));
    assert_eq!(c.increase_deposit(u64::MAX), Err(ContractError::Overflow {}));
    assert_eq!(c.total_deposit(), 6);
}

#[test]
fn randomness_rounds_and_seeds() {
    let mut c = contract();
    let r = LatestRandomResponse { round: 7, randomness: vec![0xab, 0xcd, 0xef], worker: s("w") };
    assert_eq!(c.query_terrand(&r, 1), Some(s("def")));
    assert_eq!(c.last_round, 7);
    assert_eq!(c.query_terrand(&r, 4), None);
    assert_eq!(c.update_last_round(9), 9);
    assert_eq!(c.last_round, 9);
}
