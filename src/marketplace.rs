use vstd::prelude::*;
use crate::error::ContractError;
use crate::msg::{funds_exact, is_exact_payment, Coin, OutMsg, TokenMsg};
use crate::nft::Approval;

verus! {

/// Length of a serialized compressed secp256k1 public key.
pub const ECDSA_COMPRESSED_PUBKEY_LEN: usize = 33;

/// Length of a serialized uncompressed secp256k1 public key.
pub const ECDSA_UNCOMPRESSED_PUBKEY_LEN: usize = 65;

/// Configuration given when the marketplace is created.
#[derive(Debug, Clone, PartialEq, Eq)]
pub struct InstantiateMsg {
    pub name: String,
    pub admin_addr: String,
    pub stable_denom: String,
    pub public_key: String,
}

/// The marketplace's configuration.
#[derive(Debug, Clone, PartialEq, Eq)]
pub struct ContractInfoResponse {
    pub name: String,
    pub admin_addr: String,
    pub stable_denom: String,
}

/// Read-only requests to the marketplace.
#[derive(Debug, Clone, PartialEq, Eq)]
pub enum QueryMsg {
    ContractInfo {},
    Admin {},
    PublicKey {},
}

/// What a token contract reports of a token's ownership.
#[derive(Debug, Clone, PartialEq, Eq)]
pub struct OwnerOfResponse {
    pub owner: String,
    pub approvals: Vec<Approval>,
}

/// The bytes that base64 text (standard alphabet, padded) encodes, where it is such text.
pub uninterp spec fn base64_decoded(text: Seq<char>) -> Option<Seq<u8>>;

/// Relies on base64::decode: the bytes that the text encodes in the standard
/// alphabet, or an error for text that encodes none; the result depends on the text alone.
#[verifier::external_body]
fn decode_base64(text: &str) -> (r: Option<Vec<u8>>)
    ensures
        r.is_some() == base64_decoded(text@).is_some(),
        r.is_some() ==> r.unwrap()@ == base64_decoded(text@).unwrap(),
{
    base64::decode(text).ok()
}

/// A serialized secp256k1 public key: 33 bytes after a 0x02 or 0x03 prefix, or 65
/// bytes after a 0x04 prefix.
pub open spec fn is_pubkey(data: Seq<u8>) -> bool {
    &&& data.len() > 0
    &&& ((data[0] == 2u8 || data[0] == 3u8) && data.len() == 33) || (data[0] == 4u8 && data.len() == 65)
}

/// Checks that the bytes are a serialized secp256k1 public key.
pub fn check_pubkey(data: &[u8]) -> (r: Result<(), ContractError>)
    ensures
        r.is_ok() == is_pubkey(data@),
        r.is_err() ==> r == (Err::<(), ContractError>(ContractError::InvalidSecp256k1PubkeyFormat {})),
{
    let ok = if data.len() == 0 {
        false
    } else if data[0] == 2 || data[0] == 3 {
        data.len() == ECDSA_COMPRESSED_PUBKEY_LEN
    } else if data[0] == 4 {
        data.len() == ECDSA_UNCOMPRESSED_PUBKEY_LEN
    } else {
        false
    };
    if ok {
        Ok(())
    } else {
        Err(ContractError::InvalidSecp256k1PubkeyFormat {})
    }
}

/// The asserted owner is the token's owner.
pub fn query_is_owner_valid(token_owner: &String, owner_addr: &String) -> (r: bool)
    ensures
        r == (token_owner@ == owner_addr@),
{
    *token_owner == *owner_addr
}

/// The asserted buyer is valid: it is not the sender.
pub fn query_is_buyer_valid(buyer_addr: &String, sender: &String) -> (r: bool)
    ensures
        r == (sender@ != buyer_addr@),
{
    *sender != *buyer_addr
}

/// `m` and `n` are the two legs of a sale: the token goes to the buyer, the price to the owner.
pub open spec fn is_sale(
    m: OutMsg,
    n: OutMsg,
    collection: Seq<char>,
    owner: Seq<char>,
    token_id: Seq<char>,
    buyer: Seq<char>,
    price: u128,
) -> bool {
    &&& match m {
        OutMsg::Token { contract_addr, msg } => contract_addr@ == collection && match msg {
            TokenMsg::TransferNft { recipient, token_id: t } => recipient@ == buyer && t@ == token_id,
            _ => false,
        },
        _ => false,
    }
    &&& match n {
        OutMsg::BankSend { to_address, amount } => to_address@ == owner && amount.denom@ == "uusd"@
            && amount.amount == price,
        _ => false,
    }
}

/// The marketplace's state: its configuration and the public key that signs sales.
#[derive(Debug)]
pub struct Marketplace {
    pub info: ContractInfoResponse,
    pub public_key: String,
}

impl Marketplace {
    /// Creates the marketplace. The administrator address is taken as already
    /// validated; the signing key starts as the placeholder "public_key".
    pub fn instantiate(msg: InstantiateMsg) -> (r: Marketplace)
        ensures
            r.info == (ContractInfoResponse {
                name: msg.name,
                admin_addr: msg.admin_addr,
                stable_denom: msg.stable_denom,
            }),
            r.public_key@ == "public_key"@,
    {
        Marketplace {
            info: ContractInfoResponse { name: msg.name, admin_addr: msg.admin_addr, stable_denom: msg.stable_denom },
            public_key: String::from_str("public_key"),
        }
    }

    /// The funds are exactly one coin of the stable denomination worth `price`.
    pub fn query_is_funds_valid(&self, price: u128, funds: &Vec<Coin>) -> (r: bool)
        ensures
            r == funds_exact(funds@, self.info.stable_denom@, price),
    {
        is_exact_payment(funds, &self.info.stable_denom, price)
    }

    /// Settles a sale in one step. `token_owner` is the owner that the token contract
    /// reports. The asserted owner must own the token, the asserted buyer must not be
    /// the sender, and the funds must be exactly the price; then the token goes to the
    /// buyer and the price, in "uusd", to the owner.
    pub fn execute_temp_transaction(
        &self,
        sender: &String,
        funds: &Vec<Coin>,
        contract_addr: &String,
        owner_addr: &String,
        token_id: &String,
        buyer_addr: &String,
        price: u128,
        token_owner: &String,
    ) -> (r: Result<Vec<OutMsg>, ContractError>)
        ensures
            token_owner@ != owner_addr@ ==> r == (Err::<Vec<OutMsg>, ContractError>(ContractError::InvalidToken {})),
            token_owner@ == owner_addr@ && sender@ == buyer_addr@ ==> r == (Err::<Vec<OutMsg>, ContractError>(
                ContractError::BuyerMismatch {},
            )),
            token_owner@ == owner_addr@ && sender@ != buyer_addr@ && !funds_exact(
                funds@,
                self.info.stable_denom@,
                price,
            ) ==> r == (Err::<Vec<OutMsg>, ContractError>(
                ContractError::InsufficientFunds { amount: price, denom: self.info.stable_denom },
            )),
            r.is_ok() == (token_owner@ == owner_addr@ && sender@ != buyer_addr@ && funds_exact(
                funds@,
                self.info.stable_denom@,
                price,
            )),
            r.is_ok() ==> r.unwrap().len() == 2 && is_sale(
                r.unwrap()[0],
                r.unwrap()[1],
                contract_addr@,
                owner_addr@,
                token_id@,
                buyer_addr@,
                price,
            ),
    {
        if !query_is_owner_valid(token_owner, owner_addr) {
            return Err(ContractError::InvalidToken {});
        }
        if !query_is_buyer_valid(buyer_addr, sender) {
            return Err(ContractError::BuyerMismatch {});
        }
        if !self.query_is_funds_valid(price, funds) {
            return Err(ContractError::InsufficientFunds { amount: price, denom: self.info.stable_denom.clone() });
        }
        let transfer = TokenMsg::TransferNft { recipient: buyer_addr.clone(), token_id: token_id.clone() };
        let mut msgs: Vec<OutMsg> = Vec::new();
        msgs.push(OutMsg::Token { contract_addr: contract_addr.clone(), msg: transfer });
        msgs.push(
            OutMsg::BankSend {
                to_address: owner_addr.clone(),
                amount: Coin { denom: String::from_str("uusd"), amount: price },
            },
        );
        Ok(msgs)
    }

    /// Hands administration to a new address; only the administrator may.
    pub fn set_admin_addr(&mut self, sender: &String, new_addr: &String) -> (r: Result<(), ContractError>)
        ensures
            r.is_ok() == (sender@ == old(self).info.admin_addr@),
            r.is_err() ==> r == (Err::<(), ContractError>(ContractError::Unauthorized {})) && *final(self) == *old(self),
            r.is_ok() ==> final(self).info == (ContractInfoResponse { admin_addr: *new_addr, ..old(self).info }),
            final(self).public_key == old(self).public_key,
    {
        if *sender != self.info.admin_addr {
            return Err(ContractError::Unauthorized {});
        }
        self.info.admin_addr = new_addr.clone();
        Ok(())
    }

    /// Replaces the signing key; only the administrator may. The key is base64 text
    /// that must decode to a serialized secp256k1 public key.
    pub fn set_public_key(&mut self, sender: &String, public_key: &String) -> (r: Result<(), ContractError>)
        ensures
            sender@ != old(self).info.admin_addr@ ==> r == (Err::<(), ContractError>(ContractError::Unauthorized {})),
            sender@ == old(self).info.admin_addr@ && base64_decoded(public_key@).is_none() ==> r == (Err::<
                (),
                ContractError,
            >(ContractError::InvalidMessage {})),
            sender@ == old(self).info.admin_addr@ && base64_decoded(public_key@).is_some() && !is_pubkey(
                base64_decoded(public_key@).unwrap(),
            ) ==> r == (Err::<(), ContractError>(ContractError::InvalidSecp256k1PubkeyFormat {})),
            r.is_ok() == (sender@ == old(self).info.admin_addr@ && base64_decoded(public_key@).is_some() && is_pubkey(
                base64_decoded(public_key@).unwrap(),
            )),
            r.is_err() ==> *final(self) == *old(self),
            r.is_ok() ==> final(self).public_key == *public_key,
            final(self).info == old(self).info,
    {
        if *sender != self.info.admin_addr {
            return Err(ContractError::Unauthorized {});
        }
        let bytes = match decode_base64(public_key.as_str()) {
            Some(b) => b,
            None => {
                return Err(ContractError::InvalidMessage {});
            },
        };
        match check_pubkey(bytes.as_slice()) {
            Ok(()) => {},
            Err(e) => {
                return Err(e);
            },
        }
        self.public_key = public_key.clone();
        Ok(())
    }

    /// The administrator's address.
    pub fn query_admin(&self) -> (r: String)
        ensures
            r == self.info.admin_addr,
    {
        self.info.admin_addr.clone()
    }

    /// The signing key.
    pub fn query_public_key(&self) -> (r: String)
        ensures
            r == self.public_key,
    {
        self.public_key.clone()
    }
}

} // verus!
