use vstd::prelude::*;
use crate::error::ContractError;
use crate::rarity::{rarity_of, Rarity};
use crate::time::{expiration_or_default, BlockInfo, Expiration};
use crate::token_id::{make_token_id, token_id_of};

verus! {

/// Configuration given when a token collection is created.
#[derive(Debug, Clone, PartialEq, Eq)]
pub struct InstantiateMsg {
    /// Name of the collection.
    pub name: String,
    /// Symbol that token identifiers start with.
    pub symbol: String,
    /// The only address that can mint.
    pub minter: String,
    pub common_cap: u64,
    pub uncommon_cap: u64,
    pub rare_cap: u64,
    pub legendary_cap: u64,
}

/// A request to mint one token of a rank to an owner.
#[derive(Debug, Clone, PartialEq, Eq)]
pub struct MintMsg<T> {
    /// The owner of the new token.
    pub owner: String,
    /// Rarity code of the new token.
    pub rank: String,
    pub token_uri: Option<String>,
    pub extension: T,
}

/// Who can mint.
#[derive(Debug, Clone, PartialEq, Eq)]
pub struct MinterResponse {
    pub minter: String,
}

/// Read-only requests to a token collection.
#[derive(Debug, Clone, PartialEq, Eq)]
pub enum QueryMsg {
    OwnerOf { token_id: String, include_expired: Option<bool> },
    ApprovedForAll { owner: String, include_expired: Option<bool>, start_after: Option<String>, limit: Option<u32> },
    ContractInfo {},
    NftInfo { token_id: String },
    AllNftInfo { token_id: String, include_expired: Option<bool> },
    BaseTokens {},
    OwnerBaseTokens { owner: String, start_after: Option<String>, limit: Option<u32> },
    AllBaseTokens { start_after: Option<String>, limit: Option<u32> },
    SilverTokens {},
    OwnerSilverTokens { owner: String, start_after: Option<String>, limit: Option<u32> },
    AllSilverTokens { start_after: Option<String>, limit: Option<u32> },
    GoldTokens {},
    OwnerGoldTokens { owner: String, start_after: Option<String>, limit: Option<u32> },
    AllGoldTokens { start_after: Option<String>, limit: Option<u32> },
    Minter {},
    IsMintable { rank: String },
    CanUnlockToken { token_id: String },
}

/// State-changing requests to a token collection. Addresses in them are taken as
/// already validated.
#[derive(Debug, Clone, PartialEq, Eq)]
pub enum ExecuteMsg<T> {
    TransferNft { recipient: String, token_id: String },
    SendNft { contract: String, token_id: String, msg: Vec<u8> },
    Approve { spender: String, token_id: String, expires: Option<Expiration> },
    Revoke { spender: String, token_id: String },
    ApproveAll { operator: String, expires: Option<Expiration> },
    RevokeAll { operator: String },
    Mint(MintMsg<T>),
    UpdateToken { token_id: String, token_uri: Option<String>, extension: Option<T> },
}

/// The owner of a token and the approvals on it.
#[derive(Debug, Clone, PartialEq, Eq)]
pub struct OwnerOfResponse {
    pub owner: String,
    pub approvals: Vec<Approval>,
}

/// The collection's name, symbol and per-rarity supply caps.
#[derive(Debug, Clone, PartialEq, Eq)]
pub struct ContractInfoResponse {
    pub name: String,
    pub symbol: String,
    pub common_cap: u64,
    pub uncommon_cap: u64,
    pub rare_cap: u64,
    pub legendary_cap: u64,
}

impl ContractInfoResponse {
    pub open spec fn cap_of(self, r: Rarity) -> u64 {
        match r {
            Rarity::Common => self.common_cap,
            Rarity::Uncommon => self.uncommon_cap,
            Rarity::Rare => self.rare_cap,
            Rarity::Legendary => self.legendary_cap,
        }
    }

    /// The supply cap of a tier.
    pub fn cap(&self, r: Rarity) -> (c: u64)
        ensures
            c == self.cap_of(r),
    {
        match r {
            Rarity::Common => self.common_cap,
            Rarity::Uncommon => self.uncommon_cap,
            Rarity::Rare => self.rare_cap,
            Rarity::Legendary => self.legendary_cap,
        }
    }
}

/// Permission for `spender` to transfer one token until `expires`.
#[derive(Debug, Clone, PartialEq, Eq)]
pub struct Approval {
    pub spender: String,
    pub expires: Expiration,
}

impl Approval {
    /// Whether the approval has lapsed at `block`.
    pub fn is_expired(&self, block: &BlockInfo) -> (r: bool)
        ensures
            r == self.expires.spec_is_expired(*block),
    {
        self.expires.is_expired(block)
    }
}

fn copy_approval(a: &Approval) -> (r: Approval)
    ensures
        r == *a,
{
    Approval { spender: a.spender.clone(), expires: a.expires }
}

/// One token: its owner, the approvals on it, its URI, rarity code and metadata.
#[derive(Debug, Clone, PartialEq, Eq)]
pub struct TokenInfo<T> {
    pub owner: String,
    pub approvals: Vec<Approval>,
    pub token_uri: Option<String>,
    pub rarity: String,
    pub extension: T,
}

/// A token under its identifier.
#[derive(Debug, Clone, PartialEq, Eq)]
pub struct TokenEntry<T> {
    pub token_id: String,
    pub info: TokenInfo<T>,
}

/// Blanket permission for `operator` over all of `granter`'s tokens until `expires`.
#[derive(Debug, Clone, PartialEq, Eq)]
pub struct OperatorGrant {
    pub granter: String,
    pub operator: String,
    pub expires: Expiration,
}

fn copy_grant(g: &OperatorGrant) -> (r: OperatorGrant)
    ensures
        r == *g,
{
    OperatorGrant { granter: g.granter.clone(), operator: g.operator.clone(), expires: g.expires }
}

/// The position of the token stored under `id`: the last entry with that identifier.
pub open spec fn token_lookup<T>(s: Seq<TokenEntry<T>>, id: Seq<char>) -> Option<int>
    decreases s.len(),
{
    if s.len() == 0 {
        None
    } else if s.last().token_id@ == id {
        Some(s.len() - 1)
    } else {
        token_lookup(s.drop_last(), id)
    }
}

/// The position of `granter`'s grant to `operator`: the last such entry.
pub open spec fn grant_lookup(s: Seq<OperatorGrant>, granter: Seq<char>, operator: Seq<char>) -> Option<int>
    decreases s.len(),
{
    if s.len() == 0 {
        None
    } else if s.last().granter@ == granter && s.last().operator@ == operator {
        Some(s.len() - 1)
    } else {
        grant_lookup(s.drop_last(), granter, operator)
    }
}

/// When `granter`'s grant to `operator` expires, if there is one.
pub open spec fn grant_expiry(s: Seq<OperatorGrant>, granter: Seq<char>, operator: Seq<char>) -> Option<Expiration> {
    match grant_lookup(s, granter, operator) {
        Some(i) => Some(s[i].expires),
        None => None,
    }
}

/// The grants with every grant of `granter` to `operator` taken out, in order.
pub open spec fn without_grant(s: Seq<OperatorGrant>, granter: Seq<char>, operator: Seq<char>) -> Seq<OperatorGrant>
    decreases s.len(),
{
    if s.len() == 0 {
        s
    } else {
        let rest = without_grant(s.drop_last(), granter, operator);
        if s.last().granter@ == granter && s.last().operator@ == operator {
            rest
        } else {
            rest.push(s.last())
        }
    }
}

/// The approvals with every approval of `spender` taken out, in order.
pub open spec fn without_spender(s: Seq<Approval>, spender: Seq<char>) -> Seq<Approval>
    decreases s.len(),
{
    if s.len() == 0 {
        s
    } else {
        let rest = without_spender(s.drop_last(), spender);
        if s.last().spender@ == spender {
            rest
        } else {
            rest.push(s.last())
        }
    }
}

/// The approvals that have not lapsed at `block`, in order.
pub open spec fn unexpired(s: Seq<Approval>, block: BlockInfo) -> Seq<Approval>
    decreases s.len(),
{
    if s.len() == 0 {
        s
    } else {
        let rest = unexpired(s.drop_last(), block);
        if s.last().expires.spec_is_expired(block) {
            rest
        } else {
            rest.push(s.last())
        }
    }
}

/// No two approvals name the same spender.
pub open spec fn spenders_unique(s: Seq<Approval>) -> bool {
    forall|i: int, j: int| 0 <= i < j < s.len() ==> (#[trigger] s[i]).spender@ != (#[trigger] s[j]).spender@
}

proof fn lemma_token_lookup_found<T>(s: Seq<TokenEntry<T>>, id: Seq<char>)
    ensures
        token_lookup(s, id) matches Some(i) ==> 0 <= i < s.len() && s[i].token_id@ == id && forall|j: int|
            i < j < s.len() ==> (#[trigger] s[j]).token_id@ != id,
        token_lookup(s, id).is_none() ==> forall|j: int| 0 <= j < s.len() ==> (#[trigger] s[j]).token_id@ != id,
    decreases s.len(),
{
    if s.len() > 0 {
        let t = s.drop_last();
        lemma_token_lookup_found(t, id);
        assert(forall|j: int| 0 <= j < t.len() ==> s[j] == t[j]);
    }
}

proof fn lemma_token_lookup_update<T>(s: Seq<TokenEntry<T>>, i: int, e: TokenEntry<T>, id: Seq<char>)
    requires
        token_lookup(s, s[i].token_id@) == Some(i),
        0 <= i < s.len(),
        e.token_id@ == s[i].token_id@,
    ensures
        token_lookup(s.update(i, e), id) == token_lookup(s, id),
    decreases s.len(),
{
    let t = s.update(i, e);
    if i == s.len() - 1 {
        assert(t.drop_last() =~= s.drop_last());
    } else {
        assert(t.drop_last() =~= s.drop_last().update(i, e));
        lemma_token_lookup_update(s.drop_last(), i, e, id);
    }
}

proof fn lemma_grant_lookup_found(s: Seq<OperatorGrant>, g: Seq<char>, o: Seq<char>)
    ensures
        grant_lookup(s, g, o) matches Some(i) ==> 0 <= i < s.len() && s[i].granter@ == g && s[i].operator@ == o,
    decreases s.len(),
{
    if s.len() > 0 {
        lemma_grant_lookup_found(s.drop_last(), g, o);
    }
}

proof fn lemma_grant_lookup_update(s: Seq<OperatorGrant>, i: int, e: OperatorGrant, g: Seq<char>, o: Seq<char>)
    requires
        grant_lookup(s, s[i].granter@, s[i].operator@) == Some(i),
        0 <= i < s.len(),
        e.granter@ == s[i].granter@,
        e.operator@ == s[i].operator@,
    ensures
        grant_lookup(s.update(i, e), g, o) == grant_lookup(s, g, o),
    decreases s.len(),
{
    let t = s.update(i, e);
    if i == s.len() - 1 {
        assert(t.drop_last() =~= s.drop_last());
    } else {
        assert(t.drop_last() =~= s.drop_last().update(i, e));
        lemma_grant_lookup_update(s.drop_last(), i, e, g, o);
    }
}

proof fn lemma_without_grant(s: Seq<OperatorGrant>, g: Seq<char>, o: Seq<char>, g2: Seq<char>, o2: Seq<char>)
    ensures
        (g2 == g && o2 == o) ==> grant_lookup(without_grant(s, g, o), g2, o2).is_none(),
        !(g2 == g && o2 == o) ==> grant_expiry(without_grant(s, g, o), g2, o2) == grant_expiry(s, g2, o2),
    decreases s.len(),
{
    if s.len() > 0 {
        let t = s.drop_last();
        lemma_without_grant(t, g, o, g2, o2);
        lemma_grant_lookup_found(t, g2, o2);
        let rest = without_grant(t, g, o);
        lemma_grant_lookup_found(rest, g2, o2);
        assert(forall|j: int| 0 <= j < t.len() ==> s[j] == t[j]);
        if !(s.last().granter@ == g && s.last().operator@ == o) {
            let w = rest.push(s.last());
            assert(w.drop_last() =~= rest);
            assert(forall|j: int| 0 <= j < rest.len() ==> w[j] == rest[j]);
        }
    }
}

proof fn lemma_without_spender_from(s: Seq<Approval>, sp: Seq<char>)
    ensures
        forall|k: int|
            0 <= k < without_spender(s, sp).len() ==> exists|j: int|
                0 <= j < s.len() && #[trigger] without_spender(s, sp)[k] == s[j],
        forall|k: int| 0 <= k < without_spender(s, sp).len() ==> (#[trigger] without_spender(s, sp)[k]).spender@ != sp,
        without_spender(s, sp).len() <= s.len(),
    decreases s.len(),
{
    if s.len() > 0 {
        let t = s.drop_last();
        lemma_without_spender_from(t, sp);
        let rest = without_spender(t, sp);
        assert forall|k: int| 0 <= k < without_spender(s, sp).len() implies exists|j: int|
            0 <= j < s.len() && #[trigger] without_spender(s, sp)[k] == s[j] by {
            if k < rest.len() {
                let j = choose|j: int| 0 <= j < t.len() && rest[k] == t[j];
                assert(s[j] == t[j]);
            } else {
                assert(without_spender(s, sp)[k] == s[s.len() - 1]);
            }
        }
    }
}

/// Taking a spender's approvals out of a list without repeated spenders leaves
/// a list without repeated spenders.
pub proof fn lemma_without_spender_unique(s: Seq<Approval>, sp: Seq<char>)
    requires
        spenders_unique(s),
    ensures
        spenders_unique(without_spender(s, sp)),
    decreases s.len(),
{
    if s.len() > 0 {
        let t = s.drop_last();
        assert(spenders_unique(t));
        lemma_without_spender_unique(t, sp);
        lemma_without_spender_from(t, sp);
        let rest = without_spender(t, sp);
        if s.last().spender@ != sp {
            let w = rest.push(s.last());
            assert forall|i: int, j: int| 0 <= i < j < w.len() implies (#[trigger] w[i]).spender@ != (
            #[trigger] w[j]).spender@ by {
                if j == w.len() - 1 {
                    let q = choose|q: int| 0 <= q < t.len() && rest[i] == t[q];
                    assert(s[q] == t[q]);
                    assert(w[i] == s[q]);
                } else {
                    assert(w[i] == rest[i] && w[j] == rest[j]);
                }
            }
        }
    }
}

/// Every approval whose spender is not `sp` stays, in order, and every approval of
/// `sp` goes: on a list without repeated spenders, exactly the matching entry goes.
pub proof fn lemma_without_spender_keeps_others(s: Seq<Approval>, sp: Seq<char>)
    ensures
        without_spender(s, sp) == s.filter(|a: Approval| a.spender@ != sp),
    decreases s.len(),
{
    reveal(Seq::filter);
    if s.len() > 0 {
        lemma_without_spender_keeps_others(s.drop_last(), sp);
    }
}

fn approvals_without(s: &Vec<Approval>, spender: &String) -> (r: Vec<Approval>)
    ensures
        r@ == without_spender(s@, spender@),
{
    let mut r: Vec<Approval> = Vec::new();
    let mut i: usize = 0;
    while i < s.len()
        invariant
            i <= s.len(),
            r@ == without_spender(s@.take(i as int), spender@),
        decreases s.len() - i,
    {
        proof {
            assert(s@.take(i + 1).drop_last() =~= s@.take(i as int));
        }
        if s[i].spender != *spender {
            r.push(copy_approval(&s[i]));
        }
        i = i + 1;
    }
    proof {
        assert(s@.take(s.len() as int) =~= s@);
    }
    r
}

fn grants_without(s: &Vec<OperatorGrant>, granter: &String, operator: &String) -> (r: Vec<OperatorGrant>)
    ensures
        r@ == without_grant(s@, granter@, operator@),
{
    let mut r: Vec<OperatorGrant> = Vec::new();
    let mut i: usize = 0;
    while i < s.len()
        invariant
            i <= s.len(),
            r@ == without_grant(s@.take(i as int), granter@, operator@),
        decreases s.len() - i,
    {
        proof {
            assert(s@.take(i + 1).drop_last() =~= s@.take(i as int));
        }
        if !(s[i].granter == *granter && s[i].operator == *operator) {
            r.push(copy_grant(&s[i]));
        }
        i = i + 1;
    }
    proof {
        assert(s@.take(s.len() as int) =~= s@);
    }
    r
}

/// A token collection: configuration, minter, one monotonic counter per rarity,
/// operator grants and the tokens.
#[derive(Debug)]
pub struct Cw721Contract<T> {
    pub contract_info: ContractInfoResponse,
    pub minter: String,
    pub common_count: u64,
    pub uncommon_count: u64,
    pub rare_count: u64,
    pub legendary_count: u64,
    pub operators: Vec<OperatorGrant>,
    pub tokens: Vec<TokenEntry<T>>,
}

impl<T> Cw721Contract<T> {
    pub open spec fn count_of(&self, r: Rarity) -> u64 {
        match r {
            Rarity::Common => self.common_count,
            Rarity::Uncommon => self.uncommon_count,
            Rarity::Rare => self.rare_count,
            Rarity::Legendary => self.legendary_count,
        }
    }

    /// The token stored under `id`, if any.
    pub open spec fn token(&self, id: Seq<char>) -> Option<TokenInfo<T>> {
        match token_lookup(self.tokens@, id) {
            Some(i) => Some(self.tokens@[i].info),
            None => None,
        }
    }

    /// `id` is the identifier of a token minted so far: the collection symbol, a
    /// rarity code and a serial between one and that rarity's counter.
    pub open spec fn minted_id(&self, id: Seq<char>) -> bool {
        exists|r: Rarity, n: nat|
            1 <= n <= self.count_of(r) && id == #[trigger] token_id_of(self.contract_info.symbol@, r, n)
    }

    /// `granter` has an unexpired grant to `operator` at `block`.
    pub open spec fn operator_valid(&self, granter: Seq<char>, operator: Seq<char>, block: BlockInfo) -> bool {
        match grant_expiry(self.operators@, granter, operator) {
            Some(e) => !e.spec_is_expired(block),
            None => false,
        }
    }

    /// `sender` may change the approvals of `t`: it owns `t` or holds a valid operator grant.
    pub open spec fn can_approve(&self, t: TokenInfo<T>, sender: Seq<char>, block: BlockInfo) -> bool {
        t.owner@ == sender || self.operator_valid(t.owner@, sender, block)
    }

    /// `sender` may transfer `t`: it owns `t`, holds an unexpired approval on it, or
    /// holds a valid operator grant from the owner.
    pub open spec fn can_send(&self, t: TokenInfo<T>, sender: Seq<char>, block: BlockInfo) -> bool {
        ||| t.owner@ == sender
        ||| exists|k: int|
            0 <= k < t.approvals.len() && (#[trigger] t.approvals[k]).spender@ == sender
                && !t.approvals[k].expires.spec_is_expired(block)
        ||| self.operator_valid(t.owner@, sender, block)
    }

    /// Counters within caps, stored identifiers all minted ones, and no token with
    /// two approvals for one spender.
    pub open spec fn wf(&self) -> bool {
        &&& forall|r: Rarity| #[trigger] self.count_of(r) <= self.contract_info.cap_of(r)
        &&& forall|i: int| 0 <= i < self.tokens.len() ==> self.minted_id(#[trigger] self.tokens[i].token_id@)
        &&& forall|i: int| 0 <= i < self.tokens.len() ==> spenders_unique(#[trigger] self.tokens[i].info.approvals@)
    }

    /// `self` and `other` differ at most in the tokens.
    pub open spec fn same_but_tokens(&self, other: &Cw721Contract<T>) -> bool {
        &&& self.contract_info == other.contract_info
        &&& self.minter == other.minter
        &&& self.common_count == other.common_count
        &&& self.uncommon_count == other.uncommon_count
        &&& self.rare_count == other.rare_count
        &&& self.legendary_count == other.legendary_count
        &&& self.operators == other.operators
    }

    /// The outcome of `mint` on this collection, giving `after` and `r`.
    pub open spec fn mint_post(&self, after: &Self, sender: String, msg: MintMsg<T>, r: Result<(), ContractError>) -> bool {
        &&& r.is_err() ==> *after == *self
        &&& ({
            let q = rarity_of(msg.rank@);
            let n = self.count_of(q);
            let id = token_id_of(self.contract_info.symbol@, q, (n + 1) as nat);
            &&& sender@ != self.minter@ ==> r == (Err::<(), ContractError>(ContractError::Unauthorized {}))
            &&& sender@ == self.minter@ && n >= self.contract_info.cap_of(q) ==> r == (Err::<
                (),
                ContractError,
            >(ContractError::Capped {}))
            &&& r.is_ok() == (sender@ == self.minter@ && n < self.contract_info.cap_of(q))
            &&& r.is_ok() ==> after.count_of(q) == n + 1
            &&& r.is_ok() ==> forall|p: Rarity| p != q ==> #[trigger] after.count_of(p) == self.count_of(p)
            &&& r.is_ok() ==> after.tokens@.len() == self.tokens@.len() + 1
            &&& r.is_ok() ==> after.tokens@.drop_last() == self.tokens@
            &&& r.is_ok() ==> after.tokens@.last().token_id@ == id
            &&& r.is_ok() ==> after.token(id) == Some(
                TokenInfo {
                    owner: msg.owner,
                    approvals: after.tokens@.last().info.approvals,
                    token_uri: msg.token_uri,
                    rarity: msg.rank,
                    extension: msg.extension,
                },
            )
            &&& r.is_ok() ==> after.tokens@.last().info.approvals@.len() == 0
            &&& r.is_ok() ==> after.contract_info == self.contract_info
            &&& r.is_ok() ==> after.minter == self.minter
            &&& r.is_ok() ==> after.operators == self.operators
        })
    }

    /// The outcome of a transfer of `token_id` to `recipient`, giving `after` and `r`.
    pub open spec fn transfer_post(&self, after: &Self, block: BlockInfo, sender: String, recipient: String, token_id: String, r: Result<(), ContractError>) -> bool {
        &&& r.is_err() ==> *after == *self
        &&& self.token(token_id@).is_none() ==> r == (Err::<(), ContractError>(ContractError::DoesNotExist {}))
        &&& (self.token(token_id@) matches Some(t) ==> {
            &&& r.is_ok() == self.can_send(t, sender@, block)
            &&& r.is_err() ==> r == (Err::<(), ContractError>(ContractError::Unauthorized {}))
            &&& r.is_ok() ==> (after.token(token_id@) matches Some(u) && u.owner == recipient
                && u.approvals@.len() == 0 && u.token_uri == t.token_uri && u.rarity == t.rarity && u.extension
                == t.extension)
            })
        &&& r.is_ok() ==> after.same_but_tokens(self)
        &&& r.is_ok() ==> forall|id: Seq<char>| id != token_id@ ==> #[trigger] after.token(id) == self.token(id)
    }

    /// The outcome of changing `spender`'s approval on `token_id`, giving `after` and `r`.
    pub open spec fn approvals_post(&self, after: &Self, block: BlockInfo, sender: String, spender: String, token_id: String, add: bool, expires: Option<Expiration>, r: Result<(), ContractError>) -> bool {
        &&& r.is_err() ==> *after == *self
        &&& self.token(token_id@).is_none() ==> r == (Err::<(), ContractError>(ContractError::DoesNotExist {}))
        &&& (self.token(token_id@) matches Some(t) ==> {
            let e = expiration_or_default(expires);
            let kept = without_spender(t.approvals@, spender@);
            &&& !self.can_approve(t, sender@, block) ==> r == (Err::<(), ContractError>(
                ContractError::Unauthorized {},
            ))
            &&& self.can_approve(t, sender@, block) && add && e.spec_is_expired(block) ==> r == (Err::<
                (),
                ContractError,
            >(ContractError::Expired {}))
            &&& r.is_ok() == (self.can_approve(t, sender@, block) && !(add && e.spec_is_expired(block)))
            &&& r.is_ok() ==> (after.token(token_id@) matches Some(u) && u.owner == t.owner && u.token_uri
                == t.token_uri && u.rarity == t.rarity && u.extension == t.extension && u.approvals@ == if add {
                kept.push(Approval { spender: spender, expires: e })
            } else {
                kept
            })
            })
        &&& r.is_ok() ==> after.same_but_tokens(self)
        &&& r.is_ok() ==> forall|id: Seq<char>| id != token_id@ ==> #[trigger] after.token(id) == self.token(id)
    }

    /// The outcome of `approve_all`, giving `after` and `r`.
    pub open spec fn approve_all_post(&self, after: &Self, block: BlockInfo, sender: String, operator: String, expires: Option<Expiration>, r: Result<(), ContractError>) -> bool {
        &&& ({
            let e = expiration_or_default(expires);
            &&& r.is_ok() == !e.spec_is_expired(block)
            &&& r.is_err() ==> r == (Err::<(), ContractError>(ContractError::Expired {})) && *after
                == *self
            &&& r.is_ok() ==> grant_expiry(after.operators@, sender@, operator@) == Some(e)
            &&& r.is_ok() ==> forall|g: Seq<char>, o: Seq<char>|
                !(g == sender@ && o == operator@) ==> #[trigger] grant_expiry(after.operators@, g, o)
                    == grant_expiry(self.operators@, g, o)
            })
        &&& after.tokens == self.tokens
        &&& after.contract_info == self.contract_info
        &&& after.minter == self.minter
        &&& forall|q: Rarity| #[trigger] after.count_of(q) == self.count_of(q)
    }

    /// The outcome of `update_token`, giving `after` and `r`.
    pub open spec fn update_token_post(&self, after: &Self, token_id: String, token_uri: Option<String>, extension: Option<T>, r: Result<(), ContractError>) -> bool {
        &&& r.is_ok() == self.token(token_id@).is_some()
        &&& r.is_err() ==> r == (Err::<(), ContractError>(ContractError::DoesNotExist {})) && *after == *self
        &&& (self.token(token_id@) matches Some(t) ==> (after.token(token_id@) matches Some(u)
            && u.owner == t.owner && u.approvals == t.approvals && u.rarity == t.rarity && u.token_uri
            == token_uri && u.extension == extension.unwrap()))
        &&& r.is_ok() ==> after.same_but_tokens(self)
        &&& r.is_ok() ==> forall|id: Seq<char>| id != token_id@ ==> #[trigger] after.token(id) == self.token(id)
    }

    /// Creates an empty collection. The minter address is taken as already validated.
    pub fn instantiate(msg: InstantiateMsg) -> (r: Cw721Contract<T>)
        ensures
            r.wf(),
            r.contract_info == (ContractInfoResponse {
                name: msg.name,
                symbol: msg.symbol,
                common_cap: msg.common_cap,
                uncommon_cap: msg.uncommon_cap,
                rare_cap: msg.rare_cap,
                legendary_cap: msg.legendary_cap,
            }),
            r.minter == msg.minter,
            forall|q: Rarity| #[trigger] r.count_of(q) == 0,
            r.operators@.len() == 0,
            r.tokens@.len() == 0,
    {
        Cw721Contract {
            contract_info: ContractInfoResponse {
                name: msg.name,
                symbol: msg.symbol,
                common_cap: msg.common_cap,
                uncommon_cap: msg.uncommon_cap,
                rare_cap: msg.rare_cap,
                legendary_cap: msg.legendary_cap,
            },
            minter: msg.minter,
            common_count: 0,
            uncommon_count: 0,
            rare_count: 0,
            legendary_count: 0,
            operators: Vec::new(),
            tokens: Vec::new(),
        }
    }

    /// How many tokens of a tier have been minted.
    pub fn count(&self, r: Rarity) -> (c: u64)
        ensures
            c == self.count_of(r),
    {
        match r {
            Rarity::Common => self.common_count,
            Rarity::Uncommon => self.uncommon_count,
            Rarity::Rare => self.rare_count,
            Rarity::Legendary => self.legendary_count,
        }
    }

    /// Whether another token of the given rank can be minted: its counter is below its cap.
    pub fn query_mintable(&self, rank: &String) -> (r: bool)
        ensures
            r == (self.count_of(rarity_of(rank@)) < self.contract_info.cap_of(rarity_of(rank@))),
    {
        let q = Rarity::from_code(rank.as_str());
        self.count(q) < self.contract_info.cap(q)
    }

    /// The identifier that the next token of a rank gets: symbol, rarity code and
    /// counter plus one. `None` where the counter is at the largest value.
    pub fn generate_token_id(&self, rank: &String) -> (r: Option<String>)
        ensures
            r.is_some() == (self.count_of(rarity_of(rank@)) < u64::MAX),
            r.is_some() ==> r.unwrap()@ == token_id_of(
                self.contract_info.symbol@,
                rarity_of(rank@),
                (self.count_of(rarity_of(rank@)) + 1) as nat,
            ),
    {
        let q = Rarity::from_code(rank.as_str());
        let c = self.count(q);
        if c == u64::MAX {
            return None;
        }
        Some(make_token_id(self.contract_info.symbol.as_str(), q, c + 1))
    }

    /// Where the token stored under `token_id` is.
    pub fn find_token(&self, token_id: &String) -> (r: Option<usize>)
        ensures
            r.is_some() == token_lookup(self.tokens@, token_id@).is_some(),
            r.is_some() ==> r.unwrap() as int == token_lookup(self.tokens@, token_id@).unwrap(),
            r.is_some() ==> r.unwrap() < self.tokens.len(),
    {
        let mut i: usize = self.tokens.len();
        proof {
            assert(self.tokens@.take(i as int) =~= self.tokens@);
        }
        while i > 0
            invariant
                i <= self.tokens.len(),
                token_lookup(self.tokens@, token_id@) == token_lookup(self.tokens@.take(i as int), token_id@),
            decreases i,
        {
            let ghost t = self.tokens@.take(i as int);
            proof {
                assert(t.drop_last() =~= self.tokens@.take(i - 1));
            }
            if self.tokens[i - 1].token_id == *token_id {
                return Some(i - 1);
            }
            i = i - 1;
        }
        None
    }

    proof fn lemma_fresh_id(&self, r: Rarity)
        requires
            self.wf(),
        ensures
            token_lookup(
                self.tokens@,
                token_id_of(self.contract_info.symbol@, r, (self.count_of(r) + 1) as nat),
            ).is_none(),
    {
        let id = token_id_of(self.contract_info.symbol@, r, (self.count_of(r) + 1) as nat);
        lemma_token_lookup_found(self.tokens@, id);
        if let Some(i) = token_lookup(self.tokens@, id) {
            assert(self.minted_id(self.tokens[i].token_id@));
            let (r2, n) = choose|r2: Rarity, n: nat|
                1 <= n <= self.count_of(r2) && self.tokens[i].token_id@ == #[trigger] token_id_of(
                    self.contract_info.symbol@,
                    r2,
                    n,
                );
            if r2 != r {
                crate::token_id::lemma_token_ids_differ_across_tiers(
                    self.contract_info.symbol@,
                    r2,
                    r,
                    n,
                    (self.count_of(r) + 1) as nat,
                );
            } else {
                crate::token_id::lemma_token_ids_unique(
                    self.contract_info.symbol@,
                    r,
                    n,
                    (self.count_of(r) + 1) as nat,
                );
            }
        }
    }

    fn set_count(&mut self, r: Rarity, c: u64)
        ensures
            final(self).count_of(r) == c,
            forall|q: Rarity| q != r ==> #[trigger] final(self).count_of(q) == old(self).count_of(q),
            final(self).contract_info == old(self).contract_info,
            final(self).minter == old(self).minter,
            final(self).operators == old(self).operators,
            final(self).tokens == old(self).tokens,
    {
        match r {
            Rarity::Common => {
                self.common_count = c;
            },
            Rarity::Uncommon => {
                self.uncommon_count = c;
            },
            Rarity::Rare => {
                self.rare_count = c;
            },
            Rarity::Legendary => {
                self.legendary_count = c;
            },
        }
    }

    /// Mints the next token of a rank. Only the minter may; the rank's counter must be
    /// below its cap. The token gets the identifier `<symbol><rarity code><counter + 1>`,
    /// which is never one already stored, and the counter grows by one.
    pub fn mint(&mut self, sender: &String, msg: MintMsg<T>) -> (r: Result<(), ContractError>)
        requires
            old(self).wf(),
        ensures
            final(self).wf(),
            old(self).mint_post(&*final(self), *sender, msg, r),
    {
        if *sender != self.minter {
            return Err(ContractError::Unauthorized {});
        }
        let q = Rarity::from_code(msg.rank.as_str());
        let n = self.count(q);
        if n >= self.contract_info.cap(q) {
            return Err(ContractError::Capped {});
        }
        let token_id = make_token_id(self.contract_info.symbol.as_str(), q, n + 1);
        proof {
            self.lemma_fresh_id(q);
        }
        match self.find_token(&token_id) {
            Some(_) => {
                return Err(ContractError::Claimed {});
            },
            None => {},
        }
        let ghost before = *self;
        let token = TokenInfo {
            owner: msg.owner,
            approvals: Vec::new(),
            token_uri: msg.token_uri,
            rarity: msg.rank,
            extension: msg.extension,
        };
        self.tokens.push(TokenEntry { token_id, info: token });
        self.set_count(q, n + 1);
        proof {
            assert(self.tokens@.drop_last() =~= before.tokens@);
            assert forall|i: int| 0 <= i < self.tokens.len() implies self.minted_id(#[trigger] self.tokens[i].token_id@) by {
                if i < before.tokens.len() {
                    assert(before.minted_id(before.tokens[i].token_id@));
                    let (r2, m) = choose|r2: Rarity, m: nat|
                        1 <= m <= before.count_of(r2) && before.tokens[i].token_id@ == #[trigger] token_id_of(
                            before.contract_info.symbol@,
                            r2,
                            m,
                        );
                    assert(self.count_of(r2) >= before.count_of(r2));
                    assert(self.tokens[i] == before.tokens[i]);
                    assert(1 <= m <= self.count_of(r2) && self.tokens[i].token_id@ == token_id_of(
                        self.contract_info.symbol@,
                        r2,
                        m,
                    ));
                } else {
                    assert(1 <= n + 1 <= self.count_of(q));
                    assert(self.tokens[i].token_id@ == token_id_of(self.contract_info.symbol@, q, (n + 1) as nat));
                }
            }
            assert forall|i: int| 0 <= i < self.tokens.len() implies spenders_unique(
                #[trigger] self.tokens[i].info.approvals@,
            ) by {
                if i < before.tokens.len() {
                    assert(self.tokens[i] == before.tokens[i]);
                }
            }
            assert forall|p: Rarity| #[trigger] self.count_of(p) <= self.contract_info.cap_of(p) by {
                assert(before.count_of(p) <= before.contract_info.cap_of(p));
            }
        }
        Ok(())
    }

    proof fn lemma_minted_frame(a: &Cw721Contract<T>, b: &Cw721Contract<T>, id: Seq<char>)
        requires
            a.minted_id(id),
            a.contract_info.symbol == b.contract_info.symbol,
            forall|r: Rarity| #[trigger] a.count_of(r) <= b.count_of(r),
        ensures
            b.minted_id(id),
    {
        let (r, n) = choose|r: Rarity, n: nat|
            1 <= n <= a.count_of(r) && id == #[trigger] token_id_of(a.contract_info.symbol@, r, n);
        assert(a.count_of(r) <= b.count_of(r));
        assert(1 <= n <= b.count_of(r) && id == token_id_of(b.contract_info.symbol@, r, n));
    }

    proof fn lemma_wf_frame(a: &Cw721Contract<T>, b: &Cw721Contract<T>)
        requires
            a.wf(),
            a.tokens == b.tokens,
            a.contract_info == b.contract_info,
            forall|r: Rarity| #[trigger] a.count_of(r) == b.count_of(r),
        ensures
            b.wf(),
    {
        assert forall|i: int| 0 <= i < b.tokens.len() implies b.minted_id(#[trigger] b.tokens[i].token_id@) by {
            assert(a.minted_id(a.tokens[i].token_id@));
            Self::lemma_minted_frame(a, b, a.tokens[i].token_id@);
        }
        assert forall|r: Rarity| #[trigger] b.count_of(r) <= b.contract_info.cap_of(r) by {
            assert(a.count_of(r) <= a.contract_info.cap_of(r));
        }
        assert forall|i: int| 0 <= i < b.tokens.len() implies spenders_unique(#[trigger] b.tokens[i].info.approvals@) by {
            assert(a.tokens[i] == b.tokens[i]);
        }
    }

    proof fn lemma_update_entry(old_s: &Cw721Contract<T>, new_s: &Cw721Contract<T>, i: int, e: TokenEntry<T>)
        requires
            0 <= i < old_s.tokens.len(),
            token_lookup(old_s.tokens@, old_s.tokens@[i].token_id@) == Some(i),
            e.token_id@ == old_s.tokens@[i].token_id@,
            new_s.tokens@ == old_s.tokens@.update(i, e),
        ensures
            forall|id: Seq<char>| #[trigger] new_s.token(id) == if id == e.token_id@ {
                Some(e.info)
            } else {
                old_s.token(id)
            },
    {
        assert forall|id: Seq<char>| #[trigger] new_s.token(id) == if id == e.token_id@ {
            Some(e.info)
        } else {
            old_s.token(id)
        } by {
            lemma_token_lookup_update(old_s.tokens@, i, e, id);
            lemma_token_lookup_found(old_s.tokens@, id);
        }
    }

    /// Where `granter`'s grant to `operator` is.
    pub fn find_grant(&self, granter: &String, operator: &String) -> (r: Option<usize>)
        ensures
            r.is_some() == grant_lookup(self.operators@, granter@, operator@).is_some(),
            r.is_some() ==> r.unwrap() as int == grant_lookup(self.operators@, granter@, operator@).unwrap(),
            r.is_some() ==> r.unwrap() < self.operators.len(),
    {
        let mut i: usize = self.operators.len();
        proof {
            assert(self.operators@.take(i as int) =~= self.operators@);
        }
        while i > 0
            invariant
                i <= self.operators.len(),
                grant_lookup(self.operators@, granter@, operator@) == grant_lookup(
                    self.operators@.take(i as int),
                    granter@,
                    operator@,
                ),
            decreases i,
        {
            let ghost t = self.operators@.take(i as int);
            proof {
                assert(t.drop_last() =~= self.operators@.take(i - 1));
            }
            if self.operators[i - 1].granter == *granter && self.operators[i - 1].operator == *operator {
                return Some(i - 1);
            }
            i = i - 1;
        }
        None
    }

    fn check_operator(&self, block: &BlockInfo, granter: &String, operator: &String) -> (r: bool)
        ensures
            r == self.operator_valid(granter@, operator@, *block),
    {
        match self.find_grant(granter, operator) {
            Some(i) => !self.operators[i].expires.is_expired(block),
            None => false,
        }
    }

    /// Succeeds where `sender` may change the approvals of `token`: it is the owner or
    /// holds an unexpired operator grant from the owner.
    pub fn check_can_approve(&self, block: &BlockInfo, sender: &String, token: &TokenInfo<T>) -> (r: Result<
        (),
        ContractError,
    >)
        ensures
            r.is_ok() == self.can_approve(*token, sender@, *block),
            r.is_err() ==> r == (Err::<(), ContractError>(ContractError::Unauthorized {})),
    {
        if token.owner == *sender {
            return Ok(());
        }
        if self.check_operator(block, &token.owner, sender) {
            Ok(())
        } else {
            Err(ContractError::Unauthorized {})
        }
    }

    /// Succeeds where `sender` may transfer `token`: it is the owner, holds an unexpired
    /// approval on the token, or holds an unexpired operator grant from the owner.
    pub fn check_can_send(&self, block: &BlockInfo, sender: &String, token: &TokenInfo<T>) -> (r: Result<
        (),
        ContractError,
    >)
        ensures
            r.is_ok() == self.can_send(*token, sender@, *block),
            r.is_err() ==> r == (Err::<(), ContractError>(ContractError::Unauthorized {})),
    {
        if token.owner == *sender {
            return Ok(());
        }
        let mut k: usize = 0;
        while k < token.approvals.len()
            invariant
                k <= token.approvals.len(),
                forall|j: int|
                    0 <= j < k ==> !((#[trigger] token.approvals[j]).spender@ == sender@
                        && !token.approvals[j].expires.spec_is_expired(*block)),
            decreases token.approvals.len() - k,
        {
            if token.approvals[k].spender == *sender && !token.approvals[k].is_expired(block) {
                return Ok(());
            }
            k = k + 1;
        }
        if self.check_operator(block, &token.owner, sender) {
            Ok(())
        } else {
            Err(ContractError::Unauthorized {})
        }
    }

    /// Gives a token to `recipient` and clears its approvals, where `sender` may send
    /// it. The recipient address is taken as already validated.
    pub fn _transfer_nft(&mut self, block: &BlockInfo, sender: &String, recipient: &String, token_id: &String) -> (r:
        Result<(), ContractError>)
        requires
            old(self).wf(),
        ensures
            final(self).wf(),
            old(self).transfer_post(&*final(self), *block, *sender, *recipient, *token_id, r),
    {
        let i = match self.find_token(token_id) {
            None => {
                return Err(ContractError::DoesNotExist {});
            },
            Some(i) => i,
        };
        proof {
            lemma_token_lookup_found(self.tokens@, token_id@);
        }
        match self.check_can_send(block, sender, &self.tokens[i].info) {
            Ok(()) => {},
            Err(e) => {
                return Err(e);
            },
        }
        let ghost before = *self;
        self.tokens[i].info.owner = recipient.clone();
        self.tokens[i].info.approvals = Vec::new();
        proof {
            let e = self.tokens@[i as int];
            assert(self.tokens@ =~= before.tokens@.update(i as int, e));
            Self::lemma_update_entry(&before, &*self, i as int, e);
            assert forall|q: Rarity| #[trigger] self.count_of(q) <= self.contract_info.cap_of(q) by {
                assert(before.count_of(q) <= before.contract_info.cap_of(q));
            }
            assert forall|j: int| 0 <= j < self.tokens.len() implies self.minted_id(#[trigger] self.tokens[j].token_id@) by {
                assert(before.minted_id(before.tokens[j].token_id@));
                assert(self.tokens[j].token_id == before.tokens[j].token_id);
                Self::lemma_minted_frame(&before, &*self, before.tokens[j].token_id@);
            }
            assert forall|j: int| 0 <= j < self.tokens.len() implies spenders_unique(
                #[trigger] self.tokens[j].info.approvals@,
            ) by {
                if j != i {
                    assert(self.tokens[j] == before.tokens[j]);
                }
            }
        }
        Ok(())
    }

    /// Transfers a token to `recipient`; see `_transfer_nft`.
    pub fn transfer_nft(&mut self, block: &BlockInfo, sender: &String, recipient: &String, token_id: &String) -> (r:
        Result<(), ContractError>)
        requires
            old(self).wf(),
        ensures
            final(self).wf(),
            old(self).transfer_post(&*final(self), *block, *sender, *recipient, *token_id, r),
    {
        self._transfer_nft(block, sender, recipient, token_id)
    }

    /// Transfers a token to a contract; the host then notifies that contract.
    pub fn send_nft(&mut self, block: &BlockInfo, sender: &String, contract: &String, token_id: &String) -> (r: Result<
        (),
        ContractError,
    >)
        requires
            old(self).wf(),
        ensures
            final(self).wf(),
            old(self).transfer_post(&*final(self), *block, *sender, *contract, *token_id, r),
    {
        self._transfer_nft(block, sender, contract, token_id)
    }

    /// Changes one spender's approval on a token, where `sender` may approve: every
    /// approval of `spender` is taken out, and with `add` a new one with the given
    /// expiry (never, where none is given) is appended. An expiry already reached
    /// is rejected.
    pub fn _update_approvals(
        &mut self,
        block: &BlockInfo,
        sender: &String,
        spender: &String,
        token_id: &String,
        add: bool,
        expires: Option<Expiration>,
    ) -> (r: Result<(), ContractError>)
        requires
            old(self).wf(),
        ensures
            final(self).wf(),
            old(self).approvals_post(&*final(self), *block, *sender, *spender, *token_id, add, expires, r),
    {
        let i = match self.find_token(token_id) {
            None => {
                return Err(ContractError::DoesNotExist {});
            },
            Some(i) => i,
        };
        proof {
            lemma_token_lookup_found(self.tokens@, token_id@);
        }
        match self.check_can_approve(block, sender, &self.tokens[i].info) {
            Ok(()) => {},
            Err(e) => {
                return Err(e);
            },
        }
        let mut approvals = approvals_without(&self.tokens[i].info.approvals, spender);
        if add {
            let e = expiration_or_default(expires);
            if e.is_expired(block) {
                return Err(ContractError::Expired {});
            }
            approvals.push(Approval { spender: spender.clone(), expires: e });
        }
        let ghost before = *self;
        let ghost new_list = approvals@;
        proof {
            assert(spenders_unique(before.tokens[i as int].info.approvals@));
            lemma_without_spender_unique(before.tokens[i as int].info.approvals@, spender@);
            lemma_without_spender_from(before.tokens[i as int].info.approvals@, spender@);
            let kept = without_spender(before.tokens[i as int].info.approvals@, spender@);
            if add {
                assert forall|a: int, b: int| 0 <= a < b < new_list.len() implies (#[trigger] new_list[a]).spender@
                    != (#[trigger] new_list[b]).spender@ by {
                    if b == new_list.len() - 1 {
                        assert(new_list[a] == kept[a]);
                    } else {
                        assert(new_list[a] == kept[a] && new_list[b] == kept[b]);
                    }
                }
            }
            assert(spenders_unique(new_list));
        }
        self.tokens[i].info.approvals = approvals;
        proof {
            let e = self.tokens@[i as int];
            assert(self.tokens@ =~= before.tokens@.update(i as int, e));
            Self::lemma_update_entry(&before, &*self, i as int, e);
            assert forall|q: Rarity| #[trigger] self.count_of(q) <= self.contract_info.cap_of(q) by {
                assert(before.count_of(q) <= before.contract_info.cap_of(q));
            }
            assert forall|j: int| 0 <= j < self.tokens.len() implies self.minted_id(#[trigger] self.tokens[j].token_id@) by {
                assert(before.minted_id(before.tokens[j].token_id@));
                assert(self.tokens[j].token_id == before.tokens[j].token_id);
                Self::lemma_minted_frame(&before, &*self, before.tokens[j].token_id@);
            }
            assert forall|j: int| 0 <= j < self.tokens.len() implies spenders_unique(
                #[trigger] self.tokens[j].info.approvals@,
            ) by {
                if j != i {
                    assert(self.tokens[j] == before.tokens[j]);
                }
            }
        }
        Ok(())
    }

    /// Lets `spender` transfer a token until `expires` (never, where none is given).
    pub fn approve(
        &mut self,
        block: &BlockInfo,
        sender: &String,
        spender: &String,
        token_id: &String,
        expires: Option<Expiration>,
    ) -> (r: Result<(), ContractError>)
        requires
            old(self).wf(),
        ensures
            final(self).wf(),
            old(self).approvals_post(&*final(self), *block, *sender, *spender, *token_id, true, expires, r),
    {
        self._update_approvals(block, sender, spender, token_id, true, expires)
    }

    /// Takes back every approval of `spender` on a token.
    pub fn revoke(&mut self, block: &BlockInfo, sender: &String, spender: &String, token_id: &String) -> (r: Result<
        (),
        ContractError,
    >)
        requires
            old(self).wf(),
        ensures
            final(self).wf(),
            old(self).approvals_post(&*final(self), *block, *sender, *spender, *token_id, false, None, r),
    {
        self._update_approvals(block, sender, spender, token_id, false, None)
    }

    /// Lets `operator` transfer any of `sender`'s tokens until `expires` (never, where
    /// none is given), replacing an earlier grant. An expiry already reached is rejected.
    pub fn approve_all(&mut self, block: &BlockInfo, sender: &String, operator: &String, expires: Option<Expiration>) -> (r:
        Result<(), ContractError>)
        requires
            old(self).wf(),
        ensures
            final(self).wf(),
            old(self).approve_all_post(&*final(self), *block, *sender, *operator, expires, r),
    {
        let e = expiration_or_default(expires);
        if e.is_expired(block) {
            return Err(ContractError::Expired {});
        }
        let ghost before = self.operators@;
        let ghost before_self = *self;
        match self.find_grant(sender, operator) {
            Some(i) => {
                proof {
                    lemma_grant_lookup_found(before, sender@, operator@);
                }
                self.operators[i].expires = e;
                proof {
                    assert(self.operators@ =~= before.update(i as int, self.operators@[i as int]));
                    assert forall|g: Seq<char>, o: Seq<char>| !(g == sender@ && o == operator@) implies #[trigger] grant_expiry(
                        self.operators@,
                        g,
                        o,
                    ) == grant_expiry(before, g, o) by {
                        lemma_grant_lookup_update(before, i as int, self.operators@[i as int], g, o);
                        lemma_grant_lookup_found(before, g, o);
                    }
                    lemma_grant_lookup_update(before, i as int, self.operators@[i as int], sender@, operator@);
                    assert(grant_expiry(self.operators@, sender@, operator@) == Some(e));
                }
            },
            None => {
                self.operators.push(OperatorGrant { granter: sender.clone(), operator: operator.clone(), expires: e });
                proof {
                    let t = self.operators@;
                    assert(t.drop_last() =~= before);
                    assert forall|g: Seq<char>, o: Seq<char>| !(g == sender@ && o == operator@) implies #[trigger] grant_expiry(
                        t,
                        g,
                        o,
                    ) == grant_expiry(before, g, o) by {
                        lemma_grant_lookup_found(before, g, o);
                    }
                }
            },
        }
        proof {
            Self::lemma_wf_frame(&before_self, &*self);
        }
        Ok(())
    }

    /// Withdraws `sender`'s grant to `operator`.
    pub fn revoke_all(&mut self, sender: &String, operator: &String)
        requires
            old(self).wf(),
        ensures
            final(self).wf(),
            grant_lookup(final(self).operators@, sender@, operator@).is_none(),
            forall|g: Seq<char>, o: Seq<char>|
                !(g == sender@ && o == operator@) ==> #[trigger] grant_expiry(final(self).operators@, g, o)
                    == grant_expiry(old(self).operators@, g, o),
            final(self).tokens == old(self).tokens,
            final(self).contract_info == old(self).contract_info,
            final(self).minter == old(self).minter,
            forall|q: Rarity| #[trigger] final(self).count_of(q) == old(self).count_of(q),
    {
        let ghost before_self = *self;
        let kept = grants_without(&self.operators, sender, operator);
        proof {
            lemma_without_grant(self.operators@, sender@, operator@, sender@, operator@);
            assert forall|g: Seq<char>, o: Seq<char>| !(g == sender@ && o == operator@) implies #[trigger] grant_expiry(
                kept@,
                g,
                o,
            ) == grant_expiry(self.operators@, g, o) by {
                lemma_without_grant(self.operators@, sender@, operator@, g, o);
            }
        }
        self.operators = kept;
        proof {
            Self::lemma_wf_frame(&before_self, &*self);
        }
    }

    /// Carries out one request from `sender` at `block`. `SendNft` transfers the token;
    /// notifying the receiving contract is left to the host. An `UpdateToken` without
    /// metadata is rejected as `InvalidMessage`.
    pub fn execute(&mut self, block: &BlockInfo, sender: &String, msg: ExecuteMsg<T>) -> (r: Result<(), ContractError>)
        requires
            old(self).wf(),
        ensures
            final(self).wf(),
            (match msg {
                ExecuteMsg::TransferNft { recipient, token_id } => old(self).transfer_post(
                    &*final(self),
                    *block,
                    *sender,
                    recipient,
                    token_id,
                    r,
                ),
                ExecuteMsg::SendNft { contract, token_id, msg: _ } => old(self).transfer_post(
                    &*final(self),
                    *block,
                    *sender,
                    contract,
                    token_id,
                    r,
                ),
                ExecuteMsg::Approve { spender, token_id, expires } => old(self).approvals_post(
                    &*final(self),
                    *block,
                    *sender,
                    spender,
                    token_id,
                    true,
                    expires,
                    r,
                ),
                ExecuteMsg::Revoke { spender, token_id } => old(self).approvals_post(
                    &*final(self),
                    *block,
                    *sender,
                    spender,
                    token_id,
                    false,
                    None,
                    r,
                ),
                ExecuteMsg::ApproveAll { operator, expires } => old(self).approve_all_post(
                    &*final(self),
                    *block,
                    *sender,
                    operator,
                    expires,
                    r,
                ),
                ExecuteMsg::RevokeAll { operator } => r.is_ok() && grant_lookup(
                    final(self).operators@,
                    sender@,
                    operator@,
                ).is_none() && (forall|g: Seq<char>, o: Seq<char>|
                    !(g == sender@ && o == operator@) ==> #[trigger] grant_expiry(final(self).operators@, g, o)
                        == grant_expiry(old(self).operators@, g, o)) && final(self).tokens == old(self).tokens,
                ExecuteMsg::Mint(m) => old(self).mint_post(&*final(self), *sender, m, r),
                ExecuteMsg::UpdateToken { token_id, token_uri, extension } => if extension.is_none() {
                    r == (Err::<(), ContractError>(ContractError::InvalidMessage {})) && *final(self) == *old(self)
                } else {
                    old(self).update_token_post(&*final(self), token_id, token_uri, extension, r)
                },
            }),
    {
        match msg {
            ExecuteMsg::TransferNft { recipient, token_id } => self.transfer_nft(block, sender, &recipient, &token_id),
            ExecuteMsg::SendNft { contract, token_id, msg: _ } => self.send_nft(block, sender, &contract, &token_id),
            ExecuteMsg::Approve { spender, token_id, expires } => self.approve(block, sender, &spender, &token_id, expires),
            ExecuteMsg::Revoke { spender, token_id } => self.revoke(block, sender, &spender, &token_id),
            ExecuteMsg::ApproveAll { operator, expires } => self.approve_all(block, sender, &operator, expires),
            ExecuteMsg::RevokeAll { operator } => {
                self.revoke_all(sender, &operator);
                Ok(())
            },
            ExecuteMsg::Mint(m) => self.mint(sender, m),
            ExecuteMsg::UpdateToken { token_id, token_uri, extension } => {
                if extension.is_none() {
                    return Err(ContractError::InvalidMessage {});
                }
                self.update_token(&token_id, token_uri, extension)
            },
        }
    }

    /// The owner of a token and its approvals: all of them with `include_expired`,
    /// else those that have not lapsed at `block`.
    pub fn query_owner_of(&self, block: &BlockInfo, token_id: &String, include_expired: bool) -> (r: Result<
        OwnerOfResponse,
        ContractError,
    >)
        ensures
            r.is_ok() == self.token(token_id@).is_some(),
            r.is_err() ==> r == (Err::<OwnerOfResponse, ContractError>(ContractError::DoesNotExist {})),
            r.is_ok() ==> r.unwrap().owner == self.token(token_id@).unwrap().owner,
            r.is_ok() ==> r.unwrap().approvals@ == if include_expired {
                self.token(token_id@).unwrap().approvals@
            } else {
                unexpired(self.token(token_id@).unwrap().approvals@, *block)
            },
    {
        let i = match self.find_token(token_id) {
            None => {
                return Err(ContractError::DoesNotExist {});
            },
            Some(i) => i,
        };
        let list = &self.tokens[i].info.approvals;
        let mut approvals: Vec<Approval> = Vec::new();
        let mut k: usize = 0;
        while k < list.len()
            invariant
                k <= list.len(),
                approvals@ == if include_expired {
                    list@.take(k as int)
                } else {
                    unexpired(list@.take(k as int), *block)
                },
            decreases list.len() - k,
        {
            proof {
                assert(list@.take(k + 1).drop_last() =~= list@.take(k as int));
            }
            if include_expired || !list[k].is_expired(block) {
                approvals.push(copy_approval(&list[k]));
            }
            proof {
                if include_expired {
                    assert(approvals@ =~= list@.take(k + 1));
                }
            }
            k = k + 1;
        }
        proof {
            assert(list@.take(list.len() as int) =~= list@);
        }
        Ok(OwnerOfResponse { owner: self.tokens[i].info.owner.clone(), approvals })
    }

    /// Who can mint.
    pub fn query_minter(&self) -> (r: MinterResponse)
        ensures
            r.minter == self.minter,
    {
        MinterResponse { minter: self.minter.clone() }
    }

    /// Counts one more token of a tier, where its counter is below its cap; returns
    /// the new count. Fails with `Capped` at the cap.
    pub fn increment_tokens(&mut self, r: Rarity) -> (res: Result<u64, ContractError>)
        requires
            old(self).wf(),
        ensures
            final(self).wf(),
            res.is_ok() == (old(self).count_of(r) < old(self).contract_info.cap_of(r)),
            res.is_ok() ==> res.unwrap() == old(self).count_of(r) + 1 && final(self).count_of(r) == old(self).count_of(r)
                + 1,
            res.is_err() ==> res == (Err::<u64, ContractError>(ContractError::Capped {})) && *final(self) == *old(self),
            forall|q: Rarity| q != r ==> #[trigger] final(self).count_of(q) == old(self).count_of(q),
            final(self).tokens == old(self).tokens,
            final(self).operators == old(self).operators,
            final(self).contract_info == old(self).contract_info,
            final(self).minter == old(self).minter,
    {
        let c = self.count(r);
        if c >= self.contract_info.cap(r) {
            return Err(ContractError::Capped {});
        }
        let ghost before = *self;
        self.set_count(r, c + 1);
        proof {
            assert forall|i: int| 0 <= i < self.tokens.len() implies self.minted_id(#[trigger] self.tokens[i].token_id@) by {
                assert(before.minted_id(before.tokens[i].token_id@));
                Self::lemma_minted_frame(&before, &*self, before.tokens[i].token_id@);
            }
            assert forall|q: Rarity| #[trigger] self.count_of(q) <= self.contract_info.cap_of(q) by {
                assert(before.count_of(q) <= before.contract_info.cap_of(q));
            }
            assert forall|i: int| 0 <= i < self.tokens.len() implies spenders_unique(
                #[trigger] self.tokens[i].info.approvals@,
            ) by {
                assert(before.tokens[i] == self.tokens[i]);
            }
        }
        Ok(c + 1)
    }

    /// The number of common tokens minted.
    pub fn common_count(&self) -> (r: u64)
        ensures
            r == self.count_of(Rarity::Common),
    {
        self.common_count
    }

    /// Counts one more common token; see `increment_tokens`.
    pub fn increment_common_tokens(&mut self) -> (res: Result<u64, ContractError>)
        requires
            old(self).wf(),
        ensures
            final(self).wf(),
            res.is_ok() == (old(self).count_of(Rarity::Common) < old(self).contract_info.cap_of(Rarity::Common)),
            res.is_ok() ==> res.unwrap() == old(self).count_of(Rarity::Common) + 1 && final(self).count_of(Rarity::Common)
                == res.unwrap(),
            res.is_err() ==> res == (Err::<u64, ContractError>(ContractError::Capped {})) && *final(self) == *old(self),
    {
        self.increment_tokens(Rarity::Common)
    }

    /// The number of uncommon tokens minted.
    pub fn uncommon_count(&self) -> (r: u64)
        ensures
            r == self.count_of(Rarity::Uncommon),
    {
        self.uncommon_count
    }

    /// Counts one more uncommon token; see `increment_tokens`.
    pub fn increment_uncommon_tokens(&mut self) -> (res: Result<u64, ContractError>)
        requires
            old(self).wf(),
        ensures
            final(self).wf(),
            res.is_ok() == (old(self).count_of(Rarity::Uncommon) < old(self).contract_info.cap_of(Rarity::Uncommon)),
            res.is_ok() ==> res.unwrap() == old(self).count_of(Rarity::Uncommon) + 1 && final(self).count_of(
                Rarity::Uncommon,
            ) == res.unwrap(),
            res.is_err() ==> res == (Err::<u64, ContractError>(ContractError::Capped {})) && *final(self) == *old(self),
    {
        self.increment_tokens(Rarity::Uncommon)
    }

    /// The number of rare tokens minted.
    pub fn rare_count(&self) -> (r: u64)
        ensures
            r == self.count_of(Rarity::Rare),
    {
        self.rare_count
    }

    /// Counts one more rare token; see `increment_tokens`.
    pub fn increment_rare_tokens(&mut self) -> (res: Result<u64, ContractError>)
        requires
            old(self).wf(),
        ensures
            final(self).wf(),
            res.is_ok() == (old(self).count_of(Rarity::Rare) < old(self).contract_info.cap_of(Rarity::Rare)),
            res.is_ok() ==> res.unwrap() == old(self).count_of(Rarity::Rare) + 1 && final(self).count_of(Rarity::Rare)
                == res.unwrap(),
            res.is_err() ==> res == (Err::<u64, ContractError>(ContractError::Capped {})) && *final(self) == *old(self),
    {
        self.increment_tokens(Rarity::Rare)
    }

    /// The number of legendary tokens minted.
    pub fn legendary_count(&self) -> (r: u64)
        ensures
            r == self.count_of(Rarity::Legendary),
    {
        self.legendary_count
    }

    /// Counts one more legendary token; see `increment_tokens`.
    pub fn increment_legendary_tokens(&mut self) -> (res: Result<u64, ContractError>)
        requires
            old(self).wf(),
        ensures
            final(self).wf(),
            res.is_ok() == (old(self).count_of(Rarity::Legendary) < old(self).contract_info.cap_of(Rarity::Legendary)),
            res.is_ok() ==> res.unwrap() == old(self).count_of(Rarity::Legendary) + 1 && final(self).count_of(
                Rarity::Legendary,
            ) == res.unwrap(),
            res.is_err() ==> res == (Err::<u64, ContractError>(ContractError::Capped {})) && *final(self) == *old(self),
    {
        self.increment_tokens(Rarity::Legendary)
    }

    /// Replaces a token's URI and metadata.
    pub fn update_token(&mut self, token_id: &String, token_uri: Option<String>, extension: Option<T>) -> (r: Result<
        (),
        ContractError,
    >)
        requires
            old(self).wf(),
            extension.is_some(),
        ensures
            final(self).wf(),
            old(self).update_token_post(&*final(self), *token_id, token_uri, extension, r),
    {
        let i = match self.find_token(token_id) {
            None => {
                return Err(ContractError::DoesNotExist {});
            },
            Some(i) => i,
        };
        proof {
            lemma_token_lookup_found(self.tokens@, token_id@);
        }
        let ghost before = *self;
        self.tokens[i].info.token_uri = token_uri;
        self.tokens[i].info.extension = extension.unwrap();
        proof {
            let e = self.tokens@[i as int];
            assert(self.tokens@ =~= before.tokens@.update(i as int, e));
            Self::lemma_update_entry(&before, &*self, i as int, e);
            assert forall|q: Rarity| #[trigger] self.count_of(q) <= self.contract_info.cap_of(q) by {
                assert(before.count_of(q) <= before.contract_info.cap_of(q));
            }
            assert forall|j: int| 0 <= j < self.tokens.len() implies self.minted_id(#[trigger] self.tokens[j].token_id@) by {
                assert(before.minted_id(before.tokens[j].token_id@));
                assert(self.tokens[j].token_id == before.tokens[j].token_id);
                Self::lemma_minted_frame(&before, &*self, before.tokens[j].token_id@);
            }
            assert forall|j: int| 0 <= j < self.tokens.len() implies spenders_unique(
                #[trigger] self.tokens[j].info.approvals@,
            ) by {
                assert(before.tokens[j].info.approvals == self.tokens[j].info.approvals);
            }
        }
        Ok(())
    }
}

/// A collection's per-rarity counter never exceeds its cap: `instantiate` makes a
/// well-formed collection, every operation keeps it well formed, and in a
/// well-formed collection each counter is at most its cap. Once a counter equals
/// its cap, `mint` of that rarity fails with `Capped`.
pub proof fn lemma_counter_within_cap<T>(c: &Cw721Contract<T>, r: Rarity)
    requires
        c.wf(),
    ensures
        c.count_of(r) <= c.contract_info.cap_of(r),
{
}

/// No stored token ever lists two approvals for one spender, whatever sequence of
/// approvals and revocations led to it.
pub proof fn lemma_approvals_unique<T>(c: &Cw721Contract<T>, token_id: Seq<char>)
    requires
        c.wf(),
        c.token(token_id).is_some(),
    ensures
        spenders_unique(c.token(token_id).unwrap().approvals@),
{
    lemma_token_lookup_found(c.tokens@, token_id);
    let i = token_lookup(c.tokens@, token_id).unwrap();
    assert(spenders_unique(c.tokens[i].info.approvals@));
}

} // verus!
