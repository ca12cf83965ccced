use playible::error::ContractError;
use playible::marketplace::{check_pubkey, query_is_buyer_valid, query_is_owner_valid, InstantiateMsg, Marketplace};
use playible::msg::{Coin, OutMsg, TokenMsg};

fn s(x: &str) -> String {
    x.to_string()
}

fn market() -> Marketplace {
    Marketplace::instantiate(InstantiateMsg {
        name: s("market"),
        admin_addr: s("admin"),
        stable_denom: s("uusd"),
        public_key: s("ignored"),
    })
}

fn pay(amount: u128) -> Vec<Coin> {
    vec![Coin { denom: s("uusd"), amount }]
}

#[test]
fn buyer_equal_to_sender_is_rejected() {
    let m = market();
    let r = m.execute_temp_transaction(&s("bob"), &pay(50), &s("nft"), &s("alice"), &s("T1"), &s("bob"), 50, &s("alice"));
    assert_eq!(r, Err(ContractError::BuyerMismatch {}));
    assert!(!query_is_buyer_valid(&s("bob"), &s("bob")));
    assert!(query_is_buyer_valid(&s("bob"), &s("relayer")));
}

#[test]
fn funds_other_than_the_price_are_rejected() {
    let m = market();
    let insufficient = Err(ContractError::InsufficientFunds { amount: 50, denom: s("uusd") });
    let args = (s("relayer"), s("nft"), s("alice"), s("T1"), s("bob"));
    for funds in [pay(49), pay(51), vec![], vec![Coin { denom: s("uluna"), amount: 50 }], vec![pay(50)[0].clone(), pay(50)[0].clone()]] {
        let r = m.execute_temp_transaction(&args.0, &funds, &args.1, &args.2, &args.3, &args.4, 50, &s("alice"));
        assert_eq!(r, insufficient);
    }
    assert!(m.query_is_funds_valid(50, &pay(50)));
    assert!(!m.query_is_funds_valid(50, &pay(5)));
}

#[test]
fn a_wrong_owner_is_rejected_first() {
    let m = market();
    let r = m.execute_temp_transaction(&s("bob"), &pay(1), &s("nft"), &s("alice"), &s("T1"), &s("bob"), 50, &s("carol"));
    assert_eq!(r, Err(ContractError::InvalidToken {}));
    assert!(!query_is_owner_valid(&s("carol"), &s("alice")));
    assert!(query_is_owner_valid(&s("alice"), &s("alice")));
}

#[test]
fn a_valid_sale_transfers_the_token_and_pays_the_owner() {
    let m = market();
    let r = m.execute_temp_transaction(&s("relayer"), &pay(50), &s("nft"), &s("alice"), &s("T1"), &s("bob"), 50, &s("alice"));
    assert_eq!(
        r,
        Ok(vec![
            OutMsg::Token { contract_addr: s("nft"), msg: TokenMsg::TransferNft { recipient: s("bob"), token_id: s("T1") } },
            OutMsg::BankSend { to_address: s("alice"), amount: Coin { denom: s("uusd"), amount: 50 } },
        ])
    );
}

#[test]
fn admin_changes() {
    let mut m = market();
    assert_eq!(m.query_public_key(), "public_key");
    assert_eq!(m.set_admin_addr(&s("eve"), &s("eve")), Err(ContractError::Unauthorized {}));
    assert_eq!(m.set_admin_addr(&s("admin"), &s("admin2")), Ok(()));
    assert_eq!(m.query_admin(), "admin2");
}

#[test]
fn public_keys_are_decoded_and_checked() {
    let mut m = market();
    let compressed = s("AgcHBwcHBwcHBwcHBwcHBwcHBwcHBwcHBwcHBwcHBwcH");
    let uncompressed = s("BAkJCQkJCQkJCQkJCQkJCQkJCQkJCQkJCQkJCQkJCQkJCQkJCQkJCQkJCQkJCQkJCQkJCQkJCQkJCQkJCQkJCQk=");
    assert_eq!(m.set_public_key(&s("eve"), &compressed), Err(ContractError::Unauthorized {}));
    assert_eq!(m.set_public_key(&s("admin"), &compressed), Ok(()));
    assert_eq!(m.query_public_key(), compressed);
    assert_eq!(m.set_public_key(&s("admin"), &uncompressed), Ok(()));
    assert_eq!(m.set_public_key(&s("admin"), &s("not base64!")), Err(ContractError::InvalidMessage {}));
    assert_eq!(
        m.set_public_key(&s("admin"), &s("BQcHBwcHBwcHBwcHBwcHBwcHBwcHBwcHBwcHBwcHBwcH")),
        Err(ContractError::InvalidSecp256k1PubkeyFormat {})
    );
    assert_eq!(m.query_public_key(), uncompressed);
}

#[test]
fn pubkey_shapes() {
    let mut k = vec![7u8; 33];
    k[0] = 2;
    assert_eq!(check_pubkey(&k), Ok(()));
    k[0] = 3;
    assert_eq!(check_pubkey(&k), Ok(()));
    k[0] = 4;
    assert_eq!(check_pubkey(&k), Err(ContractError::InvalidSecp256k1PubkeyFormat {}));
    let mut u = vec![9u8; 65];
    u[0] = 4;
    assert_eq!(check_pubkey(&u), Ok(()));
    assert_eq!(check_pubkey(&[]), Err(ContractError::InvalidSecp256k1PubkeyFormat {}));
    assert_eq!(check_pubkey(&[2u8; 32]), Err(ContractError::InvalidSecp256k1PubkeyFormat {}));
}
