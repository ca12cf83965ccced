use vstd::prelude::*;

verus! {

/// Every reason a contract call can be rejected. A rejected call changes no state.
#[allow(inconsistent_fields)]
#[derive(Debug, Clone, PartialEq, Eq)]
pub enum ContractError {
    /// The sender is not allowed to perform this operation.
    Unauthorized {},
    /// The token identifier (or athlete slot) is already taken.
    Claimed {},
    /// A mint would exceed the configured per-rarity cap.
    Capped {},
    /// An approval or operator grant was given an expiry already in the past.
    Expired {},
    /// A locked token cannot be unlocked yet.
    Locked {},
    /// The token has no game usages left.
    UsageCapped {},
    /// The attached funds are not exactly one coin of the pack price.
    WrongAmount { amount: u64, denom: String },
    /// The attached funds do not match the asserted marketplace price.
    InsufficientFunds { amount: u128, denom: String },
    /// The buyer assertion failed.
    BuyerMismatch {},
    /// The asserted owner does not own the token.
    InvalidToken {},
    /// The message holds malformed data (a seed that is not hex, an empty draw).
    InvalidMessage {},
    /// A public key that is neither a compressed nor an uncompressed secp256k1 key.
    InvalidSecp256k1PubkeyFormat {},
    /// The referenced athlete or token does not exist.
    DoesNotExist {},
    /// An arithmetic result does not fit its integer type.
    Overflow {},
}

} // verus!
