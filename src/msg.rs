use vstd::prelude::*;
use crate::time::Timestamp;

verus! {

/// An amount of one native denomination.
#[derive(Debug, Clone, PartialEq, Eq)]
pub struct Coin {
    pub denom: String,
    pub amount: u128,
}

/// Game metadata carried by every athlete token.
#[derive(Debug, Clone, PartialEq, Eq)]
pub struct TokenExtension {
    /// Reference ID of the athlete.
    pub athlete_id: String,
    /// Rarity code of the token.
    pub rarity: String,
    /// Whether the token is locked in a game.
    pub is_locked: bool,
    /// When a locked token may be unlocked.
    pub unlock_date: Option<Timestamp>,
    /// How many more times the token can be locked for a game.
    pub usage: u64,
}

/// What the token contract reports of one token.
#[derive(Debug, Clone, PartialEq, Eq)]
pub struct NftInfoResponse {
    pub token_uri: Option<String>,
    pub extension: TokenExtension,
}

/// Messages to a token contract.
#[derive(Debug, Clone, PartialEq, Eq)]
pub enum TokenMsg {
    Mint { token_id: String, owner: String, token_uri: Option<String>, extension: TokenExtension },
    UpdateToken { token_id: String, token_uri: Option<String>, extension: TokenExtension },
    UpdateMinter { minter: String },
    TransferNft { recipient: String, token_id: String },
    NftInfo { token_id: String },
    OwnerOf { token_id: String, include_expired: Option<bool> },
}

/// Messages to the randomness beacon.
#[derive(Debug, Clone, PartialEq, Eq)]
pub enum TerrandMsg {
    LatestDrand {},
}

/// An outbound message that the host runs after the call returns, in order.
#[allow(inconsistent_fields)]
#[derive(Debug, Clone, PartialEq, Eq)]
pub enum OutMsg {
    /// Execute a message on a token contract.
    Token { contract_addr: String, msg: TokenMsg },
    /// Deposit stablecoins into the yield protocol.
    AnchorDeposit { contract_addr: String, funds: Coin },
    /// Send yield-bearing tokens from their token contract to the yield protocol to redeem them.
    AnchorRedeem { token_contract: String, amount: u128, anchor_addr: String },
    /// Send native coins to an address.
    BankSend { to_address: String, amount: Coin },
}

/// The funds are exactly one coin of `denom` worth `amount`.
pub open spec fn funds_exact(funds: Seq<Coin>, denom: Seq<char>, amount: u128) -> bool {
    &&& funds.len() == 1
    &&& funds[0].denom@ == denom
    &&& funds[0].amount == amount
}

/// Checks that the funds are exactly one coin of `denom` worth `amount`.
pub fn is_exact_payment(funds: &Vec<Coin>, denom: &String, amount: u128) -> (r: bool)
    ensures
        r == funds_exact(funds@, denom@, amount),
{
    funds.len() == 1 && funds[0].denom == *denom && funds[0].amount == amount
}

} // verus!
