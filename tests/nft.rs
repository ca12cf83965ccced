use playible::error::ContractError;
use playible::nft::{Cw721Contract, ExecuteMsg, InstantiateMsg, MintMsg};
use playible::time::{BlockInfo, Expiration, Timestamp};

fn collection(common_cap: u64) -> Cw721Contract<()> {
    Cw721Contract::instantiate(InstantiateMsg {
        name: "Athletes".to_string(),
        symbol: "ATH".to_string(),
        minter: "minter".to_string(),
        common_cap,
        uncommon_cap: 2,
        rare_cap: 1,
        legendary_cap: 0,
    })
}

fn mint_msg(owner: &str, rank: &str) -> MintMsg<()> {
    MintMsg { owner: owner.to_string(), rank: rank.to_string(), token_uri: None, extension: () }
}

fn block(height: u64) -> BlockInfo {
    BlockInfo { height, time: Timestamp { nanos: height * 5_000_000_000 } }
}

fn s(x: &str) -> String {
    x.to_string()
}

#[test]
fn second_common_mint_over_a_cap_of_one_is_capped() {
    let mut c = collection(1);
    assert_eq!(c.mint(&s("minter"), mint_msg("alice", "C")), Ok(()));
    assert_eq!(c.mint(&s("minter"), mint_msg("alice", "C")), Err(ContractError::Capped {}));
    assert_eq!(c.common_count(), 1);
    assert_eq!(c.tokens.len(), 1);
}

#[test]
fn counters_stop_at_their_caps() {
    let mut c = collection(3);
    for _ in 0..3 {
        assert_eq!(c.mint(&s("minter"), mint_msg("bob", "C")), Ok(()));
    }
    assert_eq!(c.common_count(), 3);
    assert_eq!(c.mint(&s("minter"), mint_msg("bob", "C")), Err(ContractError::Capped {}));
    assert_eq!(c.common_count(), 3);
    assert_eq!(c.mint(&s("minter"), mint_msg("bob", "U")), Ok(()));
    assert_eq!(c.mint(&s("minter"), mint_msg("bob", "U")), Ok(()));
    assert_eq!(c.mint(&s("minter"), mint_msg("bob", "U")), Err(ContractError::Capped {}));
    assert_eq!(c.mint(&s("minter"), mint_msg("bob", "L")), Err(ContractError::Capped {}));
    assert_eq!(c.uncommon_count(), 2);
    assert_eq!(c.legendary_count(), 0);
}

#[test]
fn minted_ids_embed_symbol_rank_and_serial() {
    let mut c = collection(5);
    c.mint(&s("minter"), mint_msg("a", "C")).unwrap();
    c.mint(&s("minter"), mint_msg("a", "C")).unwrap();
    c.mint(&s("minter"), mint_msg("a", "R")).unwrap();
    let ids: Vec<String> = c.tokens.iter().map(|t| t.token_id.clone()).collect();
    assert_eq!(ids, vec![s("ATHC1"), s("ATHC2"), s("ATHR1")]);
    assert_eq!(c.tokens[2].info.rarity, "R");
    assert_eq!(c.rare_count(), 1);
}

#[test]
fn only_the_minter_mints() {
    let mut c = collection(5);
    assert_eq!(c.mint(&s("mallory"), mint_msg("a", "C")), Err(ContractError::Unauthorized {}));
    assert_eq!(c.common_count(), 0);
    assert_eq!(c.query_minter().minter, "minter");
}

#[test]
fn mintable_and_next_id() {
    let mut c = collection(1);
    assert!(c.query_mintable(&s("C")));
    assert_eq!(c.generate_token_id(&s("C")), Some(s("ATHC1")));
    c.mint(&s("minter"), mint_msg("a", "C")).unwrap();
    assert!(!c.query_mintable(&s("C")));
    assert!(!c.query_mintable(&s("L")));
    assert_eq!(c.generate_token_id(&s("C")), Some(s("ATHC2")));
}

#[test]
fn increments_stop_at_the_cap() {
    let mut c = collection(1);
    assert_eq!(c.increment_common_tokens(), Ok(1));
    assert_eq!(c.increment_common_tokens(), Err(ContractError::Capped {}));
    assert_eq!(c.increment_rare_tokens(), Ok(1));
    assert_eq!(c.increment_uncommon_tokens(), Ok(1));
    assert_eq!(c.increment_legendary_tokens(), Err(ContractError::Capped {}));
}

#[test]
fn approving_a_spender_twice_keeps_one_entry() {
    let mut c = collection(5);
    c.mint(&s("minter"), mint_msg("alice", "C")).unwrap();
    let b = block(10);
    c.approve(&b, &s("alice"), &s("bob"), &s("ATHC1"), None).unwrap();
    c.approve(&b, &s("alice"), &s("carol"), &s("ATHC1"), None).unwrap();
    c.approve(&b, &s("alice"), &s("bob"), &s("ATHC1"), Some(Expiration::AtHeight(50))).unwrap();
    let approvals = &c.tokens[0].info.approvals;
    assert_eq!(approvals.len(), 2);
    assert_eq!(approvals[0].spender, "carol");
    assert_eq!(approvals[1].spender, "bob");
    assert_eq!(approvals[1].expires, Expiration::AtHeight(50));
}

#[test]
fn revoke_removes_only_the_matching_spender() {
    let mut c = collection(5);
    c.mint(&s("minter"), mint_msg("alice", "C")).unwrap();
    let b = block(10);
    c.approve(&b, &s("alice"), &s("bob"), &s("ATHC1"), None).unwrap();
    c.approve(&b, &s("alice"), &s("carol"), &s("ATHC1"), None).unwrap();
    c.approve(&b, &s("alice"), &s("dave"), &s("ATHC1"), None).unwrap();
    c.revoke(&b, &s("alice"), &s("carol"), &s("ATHC1")).unwrap();
    let spenders: Vec<String> = c.tokens[0].info.approvals.iter().map(|a| a.spender.clone()).collect();
    assert_eq!(spenders, vec![s("bob"), s("dave")]);
    c.revoke(&b, &s("alice"), &s("nobody"), &s("ATHC1")).unwrap();
    assert_eq!(c.tokens[0].info.approvals.len(), 2);
}

#[test]
fn approvals_need_owner_or_operator() {
    let mut c = collection(5);
    c.mint(&s("minter"), mint_msg("alice", "C")).unwrap();
    let b = block(10);
    assert_eq!(c.approve(&b, &s("bob"), &s("bob"), &s("ATHC1"), None), Err(ContractError::Unauthorized {}));
    c.approve_all(&b, &s("alice"), &s("bob"), None).unwrap();
    assert_eq!(c.approve(&b, &s("bob"), &s("carol"), &s("ATHC1"), None), Ok(()));
    assert_eq!(c.approve(&b, &s("alice"), &s("carol"), &s("ATHC9"), None), Err(ContractError::DoesNotExist {}));
}

#[test]
fn expired_approvals_are_rejected() {
    let mut c = collection(5);
    c.mint(&s("minter"), mint_msg("alice", "C")).unwrap();
    let b = block(10);
    assert_eq!(
        c.approve(&b, &s("alice"), &s("bob"), &s("ATHC1"), Some(Expiration::AtHeight(10))),
        Err(ContractError::Expired {})
    );
    assert_eq!(c.approve_all(&b, &s("alice"), &s("bob"), Some(Expiration::AtHeight(3))), Err(ContractError::Expired {}));
    assert!(c.tokens[0].info.approvals.is_empty());
    assert!(c.operators.is_empty());
}

#[test]
fn transfer_by_owner_clears_approvals() {
    let mut c = collection(5);
    c.mint(&s("minter"), mint_msg("alice", "C")).unwrap();
    let b = block(10);
    c.approve(&b, &s("alice"), &s("bob"), &s("ATHC1"), None).unwrap();
    c.transfer_nft(&b, &s("alice"), &s("erin"), &s("ATHC1")).unwrap();
    assert_eq!(c.tokens[0].info.owner, "erin");
    assert!(c.tokens[0].info.approvals.is_empty());
    assert_eq!(c.transfer_nft(&b, &s("alice"), &s("alice"), &s("ATHC1")), Err(ContractError::Unauthorized {}));
}

#[test]
fn transfer_by_approved_spender_until_expiry() {
    let mut c = collection(5);
    c.mint(&s("minter"), mint_msg("alice", "C")).unwrap();
    c.approve(&block(10), &s("alice"), &s("bob"), &s("ATHC1"), Some(Expiration::AtHeight(20))).unwrap();
    assert_eq!(c.transfer_nft(&block(20), &s("bob"), &s("bob"), &s("ATHC1")), Err(ContractError::Unauthorized {}));
    assert_eq!(c.transfer_nft(&block(19), &s("bob"), &s("bob"), &s("ATHC1")), Ok(()));
    assert_eq!(c.tokens[0].info.owner, "bob");
}

#[test]
fn operators_send_until_revoked() {
    let mut c = collection(5);
    c.mint(&s("minter"), mint_msg("alice", "C")).unwrap();
    c.mint(&s("minter"), mint_msg("alice", "C")).unwrap();
    let b = block(10);
    c.approve_all(&b, &s("alice"), &s("op"), Some(Expiration::AtTime(Timestamp { nanos: 100_000_000_000 }))).unwrap();
    assert_eq!(c.send_nft(&b, &s("op"), &s("vault"), &s("ATHC1")), Ok(()));
    assert_eq!(c.tokens[0].info.owner, "vault");
    c.revoke_all(&s("alice"), &s("op"));
    assert_eq!(c.transfer_nft(&b, &s("op"), &s("op"), &s("ATHC2")), Err(ContractError::Unauthorized {}));
    assert_eq!(c.transfer_nft(&b, &s("op"), &s("op"), &s("ATHC3")), Err(ContractError::DoesNotExist {}));
}

#[test]
fn operator_grants_are_replaced_not_repeated() {
    let mut c = collection(5);
    let b = block(10);
    c.approve_all(&b, &s("alice"), &s("op"), None).unwrap();
    c.approve_all(&b, &s("alice"), &s("op"), Some(Expiration::AtHeight(99))).unwrap();
    assert_eq!(c.operators.len(), 1);
    assert_eq!(c.operators[0].expires, Expiration::AtHeight(99));
}

#[test]
fn update_token_replaces_uri_and_extension() {
    let mut c: Cw721Contract<u32> = Cw721Contract::instantiate(InstantiateMsg {
        name: s("n"),
        symbol: s("X"),
        minter: s("m"),
        common_cap: 2,
        uncommon_cap: 0,
        rare_cap: 0,
        legendary_cap: 0,
    });
    c.mint(&s("m"), MintMsg { owner: s("o"), rank: s("C"), token_uri: None, extension: 1 }).unwrap();
    assert_eq!(c.update_token(&s("XC1"), Some(s("ipfs://x")), Some(7)), Ok(()));
    assert_eq!(c.tokens[0].info.extension, 7);
    assert_eq!(c.tokens[0].info.token_uri, Some(s("ipfs://x")));
    assert_eq!(c.update_token(&s("XC2"), None, Some(7)), Err(ContractError::DoesNotExist {}));
}

#[test]
fn expirations() {
    let b = BlockInfo { height: 10, time: Timestamp { nanos: 500 } };
    assert!(Expiration::AtHeight(10).is_expired(&b));
    assert!(!Expiration::AtHeight(11).is_expired(&b));
    assert!(Expiration::AtTime(Timestamp { nanos: 500 }).is_expired(&b));
    assert!(!Expiration::AtTime(Timestamp { nanos: 501 }).is_expired(&b));
    assert!(!Expiration::Never {}.is_expired(&b));
}

#[test]
fn owner_query_hides_lapsed_approvals_unless_asked() {
    let mut c = collection(5);
    c.mint(&s("minter"), mint_msg("alice", "C")).unwrap();
    c.approve(&block(1), &s("alice"), &s("bob"), &s("ATHC1"), Some(Expiration::AtHeight(5))).unwrap();
    c.approve(&block(1), &s("alice"), &s("carol"), &s("ATHC1"), None).unwrap();
    let r = c.query_owner_of(&block(10), &s("ATHC1"), false).unwrap();
    assert_eq!(r.owner, "alice");
    let spenders: Vec<String> = r.approvals.iter().map(|a| a.spender.clone()).collect();
    assert_eq!(spenders, vec![s("carol")]);
    assert_eq!(c.query_owner_of(&block(10), &s("ATHC1"), true).unwrap().approvals.len(), 2);
    assert_eq!(c.query_owner_of(&block(10), &s("nope"), true), Err(ContractError::DoesNotExist {}));
}

#[test]
fn requests_are_dispatched() {
    let mut c = collection(5);
    let b = block(1);
    assert_eq!(c.execute(&b, &s("minter"), ExecuteMsg::Mint(mint_msg("alice", "C"))), Ok(()));
    assert_eq!(
        c.execute(&b, &s("alice"), ExecuteMsg::Approve { spender: s("bob"), token_id: s("ATHC1"), expires: None }),
        Ok(())
    );
    assert_eq!(c.execute(&b, &s("bob"), ExecuteMsg::TransferNft { recipient: s("bob"), token_id: s("ATHC1") }), Ok(()));
    assert_eq!(c.tokens[0].info.owner, "bob");
    assert_eq!(
        c.execute(&b, &s("bob"), ExecuteMsg::UpdateToken { token_id: s("ATHC1"), token_uri: None, extension: None }),
        Err(ContractError::InvalidMessage {})
    );
    assert_eq!(c.execute(&b, &s("bob"), ExecuteMsg::RevokeAll { operator: s("x") }), Ok(()));
}
