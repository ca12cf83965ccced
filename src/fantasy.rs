use vstd::prelude::*;
use crate::draw::{chunk, chunk_count, hex_to_athlete, hex_value, is_hex, lower_hex, seed_from_randomness};
use crate::error::ContractError;
use crate::msg::{funds_exact, is_exact_payment, Coin, NftInfoResponse, OutMsg, TokenExtension, TokenMsg};
use crate::time::Timestamp;
use crate::treasury::{deduct_tax, discount, discounted, tax_of, DECIMAL_FRACTION};
use crate::rarity::{rarity_of, Rarity};
use crate::token_id::{decimal, decimal_string, make_token_id, token_id_of};

verus! {

/// Configuration given when the pack contract is created.
#[derive(Debug, Clone, PartialEq, Eq)]
pub struct InstantiateMsg {
    pub stable_denom: String,
    pub anchor_addr: String,
    pub terrand_addr: String,
    pub athlete_addr: String,
    pub admin_addr: String,
    pub marketplace_addr: String,
    pub pack_len: u64,
    pub pack_price: u64,
    pub common_cap: u64,
    pub uncommon_cap: u64,
    pub rare_cap: u64,
    pub legendary_cap: u64,
}

/// Read-only requests to the pack contract.
#[derive(Debug, Clone, PartialEq, Eq)]
pub enum QueryMsg {
    ContractInfo {},
    PackPrice {},
    TotalDeposit {},
    AthleteInfo { athlete_id: String },
    AthleteCount {},
    IsTokenMintable { athlete_id: String, rarity: String },
    CanUnlockToken { token_id: String },
    CanUseToken { token_id: String },
}

/// What the randomness beacon reports: a round and its random bytes.
#[derive(Debug, Clone, PartialEq, Eq)]
pub struct LatestRandomResponse {
    pub round: u64,
    pub randomness: Vec<u8>,
    pub worker: String,
}

/// The pack contract's configuration.
#[derive(Debug, Clone, PartialEq, Eq)]
pub struct ContractInfoResponse {
    /// Stablecoin denomination that packs are paid in.
    pub stable_denom: String,
    /// Yield protocol that deposits go to.
    pub anchor_addr: String,
    /// Randomness beacon.
    pub terrand_addr: String,
    /// Administrator of this contract.
    pub admin_addr: String,
    /// Token contract that athlete tokens are minted on.
    pub athlete_addr: String,
    /// Marketplace contract.
    pub marketplace_addr: String,
    /// Number of tokens per pack.
    pub pack_len: u64,
    /// Price of a pack.
    pub pack_price: u64,
    pub common_cap: u64,
    pub uncommon_cap: u64,
    pub rare_cap: u64,
    pub legendary_cap: u64,
}

impl ContractInfoResponse {
    pub open spec fn cap_of(self, r: Rarity) -> u64 {
        match r {
            Rarity::Common => self.common_cap,
            Rarity::Uncommon => self.uncommon_cap,
            Rarity::Rare => self.rare_cap,
            Rarity::Legendary => self.legendary_cap,
        }
    }

    /// The supply cap of a tier, per athlete.
    pub fn cap(&self, r: Rarity) -> (c: u64)
        ensures
            c == self.cap_of(r),
    {
        match r {
            Rarity::Common => self.common_cap,
            Rarity::Uncommon => self.uncommon_cap,
            Rarity::Rare => self.rare_cap,
            Rarity::Legendary => self.legendary_cap,
        }
    }
}

/// One collectible class: an athlete's symbol and how many of its tokens each tier has minted.
#[derive(Debug, Clone, PartialEq, Eq)]
pub struct AthleteInfo {
    /// Symbol used for token identifiers.
    pub symbol: String,
    pub common_count: u64,
    pub uncommon_count: u64,
    pub rare_count: u64,
    pub legendary_count: u64,
}

impl AthleteInfo {
    pub open spec fn count_of(self, r: Rarity) -> u64 {
        match r {
            Rarity::Common => self.common_count,
            Rarity::Uncommon => self.uncommon_count,
            Rarity::Rare => self.rare_count,
            Rarity::Legendary => self.legendary_count,
        }
    }

    /// This athlete with the counter of tier `r` set to `n`.
    pub open spec fn with_count(self, r: Rarity, n: u64) -> AthleteInfo {
        AthleteInfo {
            symbol: self.symbol,
            common_count: if r == Rarity::Common { n } else { self.common_count },
            uncommon_count: if r == Rarity::Uncommon { n } else { self.uncommon_count },
            rare_count: if r == Rarity::Rare { n } else { self.rare_count },
            legendary_count: if r == Rarity::Legendary { n } else { self.legendary_count },
        }
    }

    /// How many tokens of tier `r` have been minted for this athlete.
    pub fn count(&self, r: Rarity) -> (c: u64)
        ensures
            c == self.count_of(r),
    {
        match r {
            Rarity::Common => self.common_count,
            Rarity::Uncommon => self.uncommon_count,
            Rarity::Rare => self.rare_count,
            Rarity::Legendary => self.legendary_count,
        }
    }
}

/// How often `x` occurs in `s`.
pub open spec fn occurrences(s: Seq<u64>, x: u64) -> nat
    decreases s.len(),
{
    if s.len() == 0 {
        0
    } else {
        occurrences(s.drop_last(), x) + if s.last() == x { 1nat } else { 0nat }
    }
}

proof fn lemma_occurrences_step(s: Seq<u64>, k: int, x: u64)
    requires
        0 <= k < s.len(),
    ensures
        occurrences(s.take(k + 1), x) == occurrences(s.take(k), x) + if s[k] == x { 1nat } else { 0nat },
{
    assert(s.take(k + 1).drop_last() =~= s.take(k));
}

proof fn lemma_occurrences_single(x: u64, y: u64)
    ensures
        occurrences(seq![x], y) == if x == y { 1nat } else { 0nat },
{
    assert(seq![x].drop_last() =~= Seq::<u64>::empty());
    reveal_with_fuel(occurrences, 2);
}

proof fn lemma_occurrences_prefix_le(s: Seq<u64>, j: int, x: u64)
    requires
        0 <= j <= s.len(),
    ensures
        occurrences(s.take(j), x) <= occurrences(s, x),
    decreases s.len() - j,
{
    if j == s.len() {
        assert(s.take(j) =~= s);
    } else {
        lemma_occurrences_step(s, j, x);
        lemma_occurrences_prefix_le(s, j + 1, x);
    }
}

/// `m` is the mint message of one drawn token.
pub open spec fn is_mint_of(
    m: OutMsg,
    contract: Seq<char>,
    owner: Seq<char>,
    token_id: Seq<char>,
    athlete_id: Seq<char>,
    rarity_code: Seq<char>,
    usage: u64,
) -> bool {
    match m {
        OutMsg::Token { contract_addr, msg } => match msg {
            TokenMsg::Mint { token_id: t, owner: o, token_uri, extension } => {
                &&& contract_addr@ == contract
                &&& t@ == token_id
                &&& o@ == owner
                &&& token_uri.is_none()
                &&& extension.athlete_id@ == athlete_id
                &&& extension.rarity@ == rarity_code
                &&& !extension.is_locked
                &&& extension.unlock_date.is_none()
                &&& extension.usage == usage
            },
            _ => false,
        },
        _ => false,
    }
}

/// `m` moves token `token_id` on contract `contract` to `recipient`.
pub open spec fn is_transfer_of(m: OutMsg, contract: Seq<char>, recipient: Seq<char>, token_id: Seq<char>) -> bool {
    match m {
        OutMsg::Token { contract_addr, msg } => match msg {
            TokenMsg::TransferNft { recipient: to, token_id: t } => {
                &&& contract_addr@ == contract
                &&& to@ == recipient
                &&& t@ == token_id
            },
            _ => false,
        },
        _ => false,
    }
}

/// How long a lock lasts, in seconds: an hour, a day or a week by name, else a minute.
pub open spec fn lock_seconds(duration: Seq<char>) -> u64 {
    if duration == "hour"@ {
        3_600
    } else if duration == "day"@ {
        86_400
    } else if duration == "week"@ {
        604_800
    } else {
        60
    }
}

/// The amount of the first coin of `denom` among `funds`, or zero.
pub open spec fn first_amount(funds: Seq<Coin>, denom: Seq<char>) -> u128
    decreases funds.len(),
{
    if funds.len() == 0 {
        0
    } else if funds[0].denom@ == denom {
        funds[0].amount
    } else {
        first_amount(funds.skip(1), denom)
    }
}

/// A locked token can be unlocked once block time has reached its unlock date, taken
/// in whole seconds; a token without an unlock date can always be unlocked.
pub open spec fn spec_can_unlock(token: NftInfoResponse, now: Timestamp) -> bool {
    let secs = match token.extension.unlock_date {
        Some(t) => t.spec_seconds(),
        None => 0,
    };
    now.nanos as int >= secs * 1_000_000_000
}

/// `m` updates token `token_id` on contract `contract` with the given game state,
/// keeping its URI, athlete and rarity.
pub open spec fn is_update_of(
    m: OutMsg,
    contract: Seq<char>,
    token_id: Seq<char>,
    token: NftInfoResponse,
    is_locked: bool,
    unlock_date: Option<Timestamp>,
    usage: u64,
) -> bool {
    match m {
        OutMsg::Token { contract_addr, msg } => match msg {
            TokenMsg::UpdateToken { token_id: t, token_uri, extension } => {
                &&& contract_addr@ == contract
                &&& t@ == token_id
                &&& token_uri == token.token_uri
                &&& extension.athlete_id == token.extension.athlete_id
                &&& extension.rarity == token.extension.rarity
                &&& extension.is_locked == is_locked
                &&& extension.unlock_date == unlock_date
                &&& extension.usage == usage
            },
            _ => false,
        },
        _ => false,
    }
}

/// Whether a token has usages left.
pub fn query_use_token(token: &NftInfoResponse) -> (r: bool)
    ensures
        r == (token.extension.usage > 0),
{
    token.extension.usage > 0
}

/// Whether a locked token can be unlocked at time `now`.
pub fn query_unlock_token(token: &NftInfoResponse, now: Timestamp) -> (r: bool)
    ensures
        r == spec_can_unlock(*token, now),
{
    let secs: u64 = match token.extension.unlock_date {
        Some(t) => t.seconds(),
        None => 0,
    };
    now.nanos as u128 >= secs as u128 * 1_000_000_000
}

fn lock_duration(duration: &String) -> (r: u64)
    ensures
        r == lock_seconds(duration@),
{
    if *duration == String::from_str("hour") {
        3_600
    } else if *duration == String::from_str("day") {
        86_400
    } else if *duration == String::from_str("week") {
        604_800
    } else {
        60
    }
}

proof fn lemma_first_amount_skip(funds: Seq<Coin>, denom: Seq<char>, i: int)
    requires
        0 <= i < funds.len(),
        funds[i].denom@ != denom,
    ensures
        first_amount(funds.skip(i), denom) == first_amount(funds.skip(i + 1), denom),
{
    assert(funds.skip(i).skip(1) =~= funds.skip(i + 1));
}

/// The amount of the first coin of `denom` among `funds`, or zero where there is none.
pub fn deposit_amount(funds: &Vec<Coin>, denom: &String) -> (r: u128)
    ensures
        r == first_amount(funds@, denom@),
{
    let mut i: usize = 0;
    proof {
        assert(funds@.skip(0) =~= funds@);
    }
    while i < funds.len()
        invariant
            i <= funds.len(),
            first_amount(funds@, denom@) == first_amount(funds@.skip(i as int), denom@),
        decreases funds.len() - i,
    {
        if funds[i].denom == *denom {
            return funds[i].amount;
        }
        proof {
            lemma_first_amount_skip(funds@, denom@, i as int);
        }
        i = i + 1;
    }
    0
}

/// The pack contract's state: configuration, deposited principal, athletes and
/// the last randomness round used.
#[derive(Debug)]
pub struct FantasyContract {
    pub info: ContractInfoResponse,
    pub total_deposit: u64,
    pub athletes: Vec<AthleteInfo>,
    pub last_round: u64,
}

impl FantasyContract {
    /// No athlete's counter of any tier is above that tier's cap.
    pub open spec fn wf(&self) -> bool {
        forall|i: int, r: Rarity|
            0 <= i < self.athletes.len() ==> #[trigger] self.athletes[i].count_of(r) <= self.info.cap_of(r)
    }

    /// Athlete `i` can still mint a token of tier `r`.
    pub open spec fn spec_mintable(&self, i: int, r: Rarity) -> bool {
        self.athletes[i].count_of(r) < self.info.cap_of(r)
    }

    /// The mintable athletes among the first `n`, in increasing order.
    pub open spec fn mintable_prefix(&self, r: Rarity, n: int) -> Seq<u64>
        decreases n,
    {
        if n <= 0 {
            Seq::empty()
        } else if self.spec_mintable(n - 1, r) {
            self.mintable_prefix(r, n - 1).push((n - 1) as u64)
        } else {
            self.mintable_prefix(r, n - 1)
        }
    }

    /// The athletes that can still mint a token of tier `r`, in increasing order.
    pub open spec fn mintable_ids(&self, r: Rarity) -> Seq<u64> {
        self.mintable_prefix(r, self.athletes.len() as int)
    }

    /// The athletes that a seed draws from the mintable ones of tier `r`.
    pub open spec fn seed_picks(&self, r: Rarity, seed: Seq<char>) -> Seq<u64> {
        let m = self.mintable_ids(r);
        Seq::new(chunk_count(seed) as nat, |k: int| m[(hex_value(chunk(seed, k)) % m.len()) as int])
    }

    /// Minting the drawn athletes in order keeps every counter of tier `r` within its cap.
    pub open spec fn fits(&self, r: Rarity, picks: Seq<u64>) -> bool {
        forall|i: int|
            0 <= i < self.athletes.len() ==> #[trigger] self.athletes[i].count_of(r) + occurrences(picks, i as u64)
                <= self.info.cap_of(r)
    }

    /// The serial number of the `k`-th drawn token: its athlete's counter before the
    /// draws plus the draws of that athlete up to and including this one.
    pub open spec fn serial(&self, r: Rarity, picks: Seq<u64>, k: int) -> nat {
        (self.athletes[picks[k] as int].count_of(r) + occurrences(picks.take(k + 1), picks[k])) as nat
    }

    /// `msgs` mints the drawn athletes, one message per draw, in order.
    pub open spec fn mints_drawn(
        &self,
        msgs: Seq<OutMsg>,
        owner: Seq<char>,
        rarity_code: Seq<char>,
        picks: Seq<u64>,
    ) -> bool {
        let r = rarity_of(rarity_code);
        &&& msgs.len() == picks.len()
        &&& forall|k: int|
            0 <= k < picks.len() ==> is_mint_of(
                #[trigger] msgs[k],
                self.info.athlete_addr@,
                owner,
                token_id_of(self.athletes[picks[k] as int].symbol@, r, self.serial(r, picks, k)),
                decimal(picks[k] as nat),
                rarity_code,
                r.spec_usage_cap(),
            )
    }

    /// `after` is this state with the draws counted: each athlete's counter of tier `r`
    /// grew by its number of draws, and nothing else changed.
    pub open spec fn counted(&self, after: &FantasyContract, r: Rarity, picks: Seq<u64>) -> bool {
        &&& after.info == self.info
        &&& after.total_deposit == self.total_deposit
        &&& after.last_round == self.last_round
        &&& after.athletes.len() == self.athletes.len()
        &&& forall|i: int|
            0 <= i < self.athletes.len() ==> #[trigger] after.athletes[i] == self.athletes[i].with_count(
                r,
                (self.athletes[i].count_of(r) + occurrences(picks, i as u64)) as u64,
            )
    }

    /// Creates the contract with no athletes and nothing deposited. The addresses
    /// are taken as already validated.
    pub fn instantiate(msg: InstantiateMsg) -> (r: FantasyContract)
        ensures
            r.wf(),
            r.info.stable_denom == msg.stable_denom,
            r.info.anchor_addr == msg.anchor_addr,
            r.info.terrand_addr == msg.terrand_addr,
            r.info.admin_addr == msg.admin_addr,
            r.info.athlete_addr == msg.athlete_addr,
            r.info.marketplace_addr == msg.marketplace_addr,
            r.info.pack_len == msg.pack_len,
            r.info.pack_price == msg.pack_price,
            r.info.common_cap == msg.common_cap,
            r.info.uncommon_cap == msg.uncommon_cap,
            r.info.rare_cap == msg.rare_cap,
            r.info.legendary_cap == msg.legendary_cap,
            r.total_deposit == 0,
            r.athletes@.len() == 0,
            r.last_round == 0,
    {
        FantasyContract {
            info: ContractInfoResponse {
                stable_denom: msg.stable_denom,
                anchor_addr: msg.anchor_addr,
                terrand_addr: msg.terrand_addr,
                admin_addr: msg.admin_addr,
                athlete_addr: msg.athlete_addr,
                marketplace_addr: msg.marketplace_addr,
                pack_len: msg.pack_len,
                pack_price: msg.pack_price,
                common_cap: msg.common_cap,
                uncommon_cap: msg.uncommon_cap,
                rare_cap: msg.rare_cap,
                legendary_cap: msg.legendary_cap,
            },
            total_deposit: 0,
            athletes: Vec::new(),
            last_round: 0,
        }
    }

    proof fn lemma_mintable_prefix_bounded(&self, r: Rarity, n: int)
        requires
            0 <= n <= self.athletes.len(),
        ensures
            forall|j: int| 0 <= j < self.mintable_prefix(r, n).len() ==> #[trigger] self.mintable_prefix(r, n)[j] < n,
            self.mintable_prefix(r, n).len() <= n,
        decreases n,
    {
        if n > 0 {
            self.lemma_mintable_prefix_bounded(r, n - 1);
        }
    }

    /// The athletes that can still mint a token of tier `r`, in increasing order.
    pub fn mintable_list(&self, r: Rarity) -> (v: Vec<u64>)
        ensures
            v@ == self.mintable_ids(r),
            forall|j: int| 0 <= j < v.len() ==> #[trigger] v[j] < self.athletes.len(),
    {
        let cap = self.info.cap(r);
        let mut v: Vec<u64> = Vec::new();
        let mut i: usize = 0;
        while i < self.athletes.len()
            invariant
                i <= self.athletes.len(),
                cap == self.info.cap_of(r),
                v@ == self.mintable_prefix(r, i as int),
            decreases self.athletes.len() - i,
        {
            if self.athletes[i].count(r) < cap {
                v.push(i as u64);
            }
            i = i + 1;
        }
        proof {
            self.lemma_mintable_prefix_bounded(r, self.athletes.len() as int);
        }
        v
    }

    fn set_count(&mut self, i: usize, r: Rarity, c: u64)
        requires
            i < old(self).athletes.len(),
        ensures
            final(self).athletes@ == old(self).athletes@.update(i as int, old(self).athletes[i as int].with_count(r, c)),
            final(self).info == old(self).info,
            final(self).total_deposit == old(self).total_deposit,
            final(self).last_round == old(self).last_round,
    {
        match r {
            Rarity::Common => {
                self.athletes[i].common_count = c;
            },
            Rarity::Uncommon => {
                self.athletes[i].uncommon_count = c;
            },
            Rarity::Rare => {
                self.athletes[i].rare_count = c;
            },
            Rarity::Legendary => {
                self.athletes[i].legendary_count = c;
            },
        }
    }

    /// Mints the drawn athletes in order, each with the next serial of its tier, and
    /// counts the mints. Fails with `Capped`, changing nothing, where a draw would
    /// take an athlete's counter past the cap.
    fn mint_draws(&mut self, owner: &String, rarity_code: &String, picks: &Vec<u64>) -> (r: Result<
        Vec<OutMsg>,
        ContractError,
    >)
        requires
            old(self).wf(),
            forall|k: int| 0 <= k < picks.len() ==> #[trigger] picks[k] < old(self).athletes.len(),
        ensures
            final(self).wf(),
            r.is_ok() == old(self).fits(rarity_of(rarity_code@), picks@),
            r.is_ok() ==> old(self).counted(&*final(self), rarity_of(rarity_code@), picks@),
            r.is_ok() ==> old(self).mints_drawn(r.unwrap()@, owner@, rarity_code@, picks@),
            r.is_err() ==> r == (Err::<Vec<OutMsg>, ContractError>(ContractError::Capped {})),
            r.is_err() ==> *final(self) == *old(self),
    {
        let rarity = Rarity::from_code(rarity_code.as_str());
        let ghost r = rarity;
        let ghost p = picks@;
        let cap = self.info.cap(rarity);
        let n = self.athletes.len();
        let mut counts: Vec<u64> = Vec::new();
        let mut i: usize = 0;
        while i < n
            invariant
                n == self.athletes.len(),
                r == rarity,
                i <= n,
                counts.len() == i,
                forall|j: int| 0 <= j < i ==> #[trigger] counts[j] == self.athletes[j].count_of(r),
            decreases n - i,
        {
            counts.push(self.athletes[i].count(rarity));
            i = i + 1;
        }
        let mut msgs: Vec<OutMsg> = Vec::new();
        let mut k: usize = 0;
        while k < picks.len()
            invariant
                self.wf(),
                n == self.athletes.len(),
                p == picks@,
                r == rarity,
                r == rarity_of(rarity_code@),
                cap == self.info.cap_of(r),
                forall|q: int| 0 <= q < picks.len() ==> #[trigger] picks[q] < n,
                k <= picks.len(),
                counts.len() == n,
                forall|j: int|
                    0 <= j < n ==> #[trigger] counts[j] == self.athletes[j].count_of(r) + occurrences(
                        p.take(k as int),
                        j as u64,
                    ),
                forall|j: int| 0 <= j < n ==> #[trigger] counts[j] <= cap,
                msgs.len() == k,
                forall|q: int|
                    0 <= q < k ==> is_mint_of(
                        #[trigger] msgs[q],
                        self.info.athlete_addr@,
                        owner@,
                        token_id_of(self.athletes[p[q] as int].symbol@, r, self.serial(r, p, q)),
                        decimal(p[q] as nat),
                        rarity_code@,
                        r.spec_usage_cap(),
                    ),
            decreases picks.len() - k,
        {
            let a = picks[k] as usize;
            proof {
                lemma_occurrences_step(p, k as int, a as u64);
                assert forall|j: int| 0 <= j < n implies #[trigger] occurrences(p.take(k + 1), j as u64) == occurrences(
                    p.take(k as int),
                    j as u64,
                ) + if j == a { 1nat } else { 0nat } by {
                    lemma_occurrences_step(p, k as int, j as u64);
                }
            }
            if counts[a] >= cap {
                proof {
                    lemma_occurrences_prefix_le(p, k + 1, a as u64);
                    assert(self.athletes[a as int].count_of(r) + occurrences(p, a as u64) > cap);
                    assert(!self.fits(r, p));
                }
                return Err(ContractError::Capped {});
            }
            let serial = counts[a] + 1;
            counts.set(a, serial);
            let token_id = make_token_id(self.athletes[a].symbol.as_str(), rarity, serial);
            let athlete_id = decimal_string(picks[k]);
            let extension = TokenExtension {
                athlete_id,
                rarity: rarity_code.clone(),
                is_locked: false,
                unlock_date: None,
                usage: rarity.usage_cap(),
            };
            let mint = TokenMsg::Mint { token_id, owner: owner.clone(), token_uri: None, extension };
            msgs.push(OutMsg::Token { contract_addr: self.info.athlete_addr.clone(), msg: mint });
            proof {
                assert(serial == self.serial(r, p, k as int));
            }
            k = k + 1;
        }
        proof {
            assert(p.take(picks.len() as int) =~= p);
        }
        let ghost before = *self;
        let mut i: usize = 0;
        while i < n
            invariant
                n == self.athletes.len(),
                n == before.athletes.len(),
                r == rarity,
                p == picks@,
                before.wf(),
                cap == before.info.cap_of(r),
                i <= n,
                counts.len() == n,
                forall|j: int|
                    0 <= j < n ==> #[trigger] counts[j] == before.athletes[j].count_of(r) + occurrences(p, j as u64),
                forall|j: int| 0 <= j < n ==> #[trigger] counts[j] <= cap,
                self.info == before.info,
                self.total_deposit == before.total_deposit,
                self.last_round == before.last_round,
                forall|j: int| 0 <= j < i ==> #[trigger] self.athletes[j] == before.athletes[j].with_count(r, counts[j]),
                forall|j: int| i <= j < n ==> #[trigger] self.athletes[j] == before.athletes[j],
            decreases n - i,
        {
            let c = counts[i];
            self.set_count(i, rarity, c);
            i = i + 1;
        }
        proof {
            assert forall|j: int, q: Rarity| 0 <= j < n implies #[trigger] self.athletes[j].count_of(q)
                <= self.info.cap_of(q) by {
                assert(self.athletes[j] == before.athletes[j].with_count(r, counts[j]));
                assert(before.athletes[j].count_of(q) <= before.info.cap_of(q));
            }
            assert forall|j: int| 0 <= j < n implies #[trigger] before.athletes[j].count_of(r) + occurrences(p, j as u64)
                <= before.info.cap_of(r) by {
                assert(counts[j] <= cap);
            }
        }
        Ok(msgs)
    }

    /// `id` names athlete `i`: athlete identifiers are their indices in decimal.
    pub open spec fn names(&self, id: Seq<char>, i: int) -> bool {
        0 <= i < self.athletes.len() && decimal(i as nat) == id
    }

    /// Some athlete has identifier `id`.
    pub open spec fn has_athlete(&self, id: Seq<char>) -> bool {
        exists|i: int| self.names(id, i)
    }

    /// Finds the athlete that an identifier names.
    pub fn find_athlete(&self, athlete_id: &String) -> (r: Option<usize>)
        ensures
            r.is_some() == self.has_athlete(athlete_id@),
            r.is_some() ==> self.names(athlete_id@, r.unwrap() as int),
    {
        let mut i: usize = 0;
        while i < self.athletes.len()
            invariant
                i <= self.athletes.len(),
                forall|j: int| 0 <= j < i ==> #[trigger] decimal(j as nat) != athlete_id@,
            decreases self.athletes.len() - i,
        {
            let name = decimal_string(i as u64);
            if name == *athlete_id {
                proof {
                    assert(self.names(athlete_id@, i as int));
                }
                return Some(i);
            }
            i = i + 1;
        }
        None
    }

    /// Whether athlete `athlete_id` can still mint a token of the given rarity:
    /// its counter of that tier is below the tier's cap.
    pub fn query_token_mintable(&self, athlete_id: &String, rarity: &String) -> (r: Result<bool, ContractError>)
        ensures
            r.is_ok() == self.has_athlete(athlete_id@),
            forall|i: int|
                self.names(athlete_id@, i) ==> r == (Ok::<bool, ContractError>(
                    self.spec_mintable(i, rarity_of(rarity@)),
                )),
            r.is_err() ==> r == (Err::<bool, ContractError>(ContractError::DoesNotExist {})),
    {
        match self.find_athlete(athlete_id) {
            None => Err(ContractError::DoesNotExist {}),
            Some(i) => {
                proof {
                    assert forall|j: int| self.names(athlete_id@, j) implies j == i by {
                        crate::token_id::lemma_decimal_injective(j as nat, i as nat);
                    }
                }
                let r = Rarity::from_code(rarity.as_str());
                Ok(self.athletes[i].count(r) < self.info.cap(r))
            },
        }
    }

    /// The identifier of the next token of a tier for an athlete: its symbol, the
    /// rarity code, and its counter of that tier plus one.
    pub fn generate_token_id(&self, athlete_id: &String, rarity: &String) -> (r: Result<String, ContractError>)
        ensures
            r.is_err() ==> !self.has_athlete(athlete_id@) || r == (Err::<String, ContractError>(
                ContractError::Overflow {},
            )),
            forall|i: int|
                self.names(athlete_id@, i) ==> {
                    let c = self.athletes[i].count_of(rarity_of(rarity@));
                    &&& r.is_ok() == (c < u64::MAX)
                    &&& r.is_ok() ==> r.unwrap()@ == token_id_of(
                        self.athletes[i].symbol@,
                        rarity_of(rarity@),
                        (c + 1) as nat,
                    )
                },
            !self.has_athlete(athlete_id@) ==> r == (Err::<String, ContractError>(ContractError::DoesNotExist {})),
    {
        match self.find_athlete(athlete_id) {
            None => Err(ContractError::DoesNotExist {}),
            Some(i) => {
                proof {
                    assert forall|j: int| self.names(athlete_id@, j) implies j == i by {
                        crate::token_id::lemma_decimal_injective(j as nat, i as nat);
                    }
                }
                let r = Rarity::from_code(rarity.as_str());
                let c = self.athletes[i].count(r);
                if c == u64::MAX {
                    return Err(ContractError::Overflow {});
                }
                Ok(make_token_id(self.athletes[i].symbol.as_str(), r, c + 1))
            },
        }
    }

    /// Counts one more minted token of a tier for an athlete. Fails with `Capped`
    /// where the counter has reached the cap.
    pub fn update_token_count(&mut self, athlete_id: &String, rarity: &String) -> (r: Result<(), ContractError>)
        requires
            old(self).wf(),
        ensures
            final(self).wf(),
            !old(self).has_athlete(athlete_id@) ==> r == (Err::<(), ContractError>(ContractError::DoesNotExist {})),
            forall|i: int|
                old(self).names(athlete_id@, i) ==> {
                    let rr = rarity_of(rarity@);
                    &&& r.is_ok() == old(self).spec_mintable(i, rr)
                    &&& r.is_ok() ==> final(self).athletes@ == old(self).athletes@.update(
                        i,
                        old(self).athletes[i].with_count(rr, (old(self).athletes[i].count_of(rr) + 1) as u64),
                    )
                    &&& r.is_err() ==> r == (Err::<(), ContractError>(ContractError::Capped {}))
                },
            r.is_err() ==> *final(self) == *old(self),
            final(self).info == old(self).info,
            final(self).total_deposit == old(self).total_deposit,
            final(self).last_round == old(self).last_round,
    {
        match self.find_athlete(athlete_id) {
            None => Err(ContractError::DoesNotExist {}),
            Some(i) => {
                proof {
                    assert forall|j: int| old(self).names(athlete_id@, j) implies j == i by {
                        crate::token_id::lemma_decimal_injective(j as nat, i as nat);
                    }
                }
                let r = Rarity::from_code(rarity.as_str());
                let c = self.athletes[i].count(r);
                if c >= self.info.cap(r) {
                    return Err(ContractError::Capped {});
                }
                self.set_count(i, r, c + 1);
                proof {
                    assert forall|j: int, q: Rarity| 0 <= j < self.athletes.len() implies #[trigger] self.athletes[j].count_of(q)
                        <= self.info.cap_of(q) by {
                        assert(old(self).athletes[j].count_of(q) <= old(self).info.cap_of(q));
                    }
                }
                Ok(())
            },
        }
    }

    /// Registers one athlete per symbol, with every counter at zero. The new
    /// athletes take the next identifiers in order.
    pub fn execute_add_athlete(&mut self, symbols: Vec<String>)
        requires
            old(self).wf(),
        ensures
            final(self).wf(),
            final(self).info == old(self).info,
            final(self).total_deposit == old(self).total_deposit,
            final(self).last_round == old(self).last_round,
            final(self).athletes.len() == old(self).athletes.len() + symbols.len(),
            forall|i: int| 0 <= i < old(self).athletes.len() ==> #[trigger] final(self).athletes[i] == old(self).athletes[i],
            forall|k: int|
                0 <= k < symbols.len() ==> #[trigger] final(self).athletes[old(self).athletes.len() + k] == (AthleteInfo {
                    symbol: symbols[k],
                    common_count: 0,
                    uncommon_count: 0,
                    rare_count: 0,
                    legendary_count: 0,
                }),
    {
        let ghost start = self.athletes.len();
        let mut k: usize = 0;
        while k < symbols.len()
            invariant
                self.wf(),
                self.info == old(self).info,
                self.total_deposit == old(self).total_deposit,
                self.last_round == old(self).last_round,
                start == old(self).athletes.len(),
                k <= symbols.len(),
                self.athletes.len() == start + k,
                forall|i: int| 0 <= i < start ==> #[trigger] self.athletes[i] == old(self).athletes[i],
                forall|q: int|
                    0 <= q < k ==> #[trigger] self.athletes[start + q] == (AthleteInfo {
                        symbol: symbols[q],
                        common_count: 0,
                        uncommon_count: 0,
                        rare_count: 0,
                        legendary_count: 0,
                    }),
            decreases symbols.len() - k,
        {
            let athlete = AthleteInfo {
                symbol: symbols[k].clone(),
                common_count: 0,
                uncommon_count: 0,
                rare_count: 0,
                legendary_count: 0,
            };
            self.athletes.push(athlete);
            proof {
                assert(self.athletes[start + k] == athlete);
                assert forall|j: int, q: Rarity| 0 <= j < self.athletes.len() implies #[trigger] self.athletes[j].count_of(q)
                    <= self.info.cap_of(q) by {
                    if j < self.athletes.len() - 1 {
                        assert(old(self).info.cap_of(q) == self.info.cap_of(q));
                    }
                }
            }
            k = k + 1;
        }
    }

    fn burn_msgs(&self, tokens: &Vec<String>, recipient: &String) -> (v: Vec<OutMsg>)
        ensures
            v.len() == tokens.len(),
            forall|k: int|
                0 <= k < tokens.len() ==> is_transfer_of(#[trigger] v[k], self.info.athlete_addr@, recipient@, tokens[k]@),
    {
        let mut v: Vec<OutMsg> = Vec::new();
        let mut k: usize = 0;
        while k < tokens.len()
            invariant
                k <= tokens.len(),
                v.len() == k,
                forall|q: int|
                    0 <= q < k ==> is_transfer_of(#[trigger] v[q], self.info.athlete_addr@, recipient@, tokens[q]@),
            decreases tokens.len() - k,
        {
            let msg = TokenMsg::TransferNft { recipient: recipient.clone(), token_id: tokens[k].clone() };
            v.push(OutMsg::Token { contract_addr: self.info.athlete_addr.clone(), msg });
            k = k + 1;
        }
        v
    }

    /// Sells a pack: checks that exactly the pack price was paid, takes the snapshot of
    /// athletes that can still mint a common token, draws one of them per three-digit
    /// chunk of the seed, and mints each draw with the next common serial of its athlete.
    pub fn execute_purchase(&mut self, sender: &String, funds: &Vec<Coin>, rand_seed: &str) -> (r: Result<
        Vec<OutMsg>,
        ContractError,
    >)
        requires
            old(self).wf(),
        ensures
            final(self).wf(),
            r.is_err() ==> *final(self) == *old(self),
            !funds_exact(funds@, old(self).info.stable_denom@, old(self).info.pack_price as u128) ==> r == (Err::<
                Vec<OutMsg>,
                ContractError,
            >(ContractError::WrongAmount { amount: old(self).info.pack_price, denom: old(self).info.stable_denom })),
            funds_exact(funds@, old(self).info.stable_denom@, old(self).info.pack_price as u128) ==> {
                let m = old(self).mintable_ids(Rarity::Common);
                let picks = old(self).seed_picks(Rarity::Common, rand_seed@);
                &&& m.len() == 0 ==> r == (Err::<Vec<OutMsg>, ContractError>(ContractError::Capped {}))
                &&& m.len() > 0 && !is_hex(rand_seed@) ==> r == (Err::<Vec<OutMsg>, ContractError>(
                    ContractError::InvalidMessage {},
                ))
                &&& m.len() > 0 && is_hex(rand_seed@) ==> {
                    &&& r.is_ok() == old(self).fits(Rarity::Common, picks)
                    &&& r.is_ok() ==> old(self).counted(&*final(self), Rarity::Common, picks)
                    &&& r.is_ok() ==> old(self).mints_drawn(r.unwrap()@, sender@, seq!['C'], picks)
                    &&& r.is_err() ==> r == (Err::<Vec<OutMsg>, ContractError>(ContractError::Capped {}))
                }
            },
    {
        if !is_exact_payment(funds, &self.info.stable_denom, self.info.pack_price as u128) {
            return Err(
                ContractError::WrongAmount {
                    amount: self.info.pack_price,
                    denom: self.info.stable_denom.clone(),
                },
            );
        }
        let mintable = self.mintable_list(Rarity::Common);
        if mintable.len() == 0 {
            return Err(ContractError::Capped {});
        }
        let draws = match hex_to_athlete(rand_seed, mintable.len() as u64) {
            Ok(d) => d,
            Err(e) => {
                return Err(e);
            },
        };
        let ghost picks_spec = self.seed_picks(Rarity::Common, rand_seed@);
        let mut picks: Vec<u64> = Vec::new();
        let mut k: usize = 0;
        while k < draws.len()
            invariant
                k <= draws.len(),
                draws.len() == chunk_count(rand_seed@),
                mintable@ == self.mintable_ids(Rarity::Common),
                mintable.len() > 0,
                forall|q: int| 0 <= q < mintable.len() ==> #[trigger] mintable[q] < self.athletes.len(),
                forall|q: int|
                    0 <= q < draws.len() ==> #[trigger] draws[q] == hex_value(chunk(rand_seed@, q)) % (
                    mintable.len() as nat),
                picks_spec == self.seed_picks(Rarity::Common, rand_seed@),
                picks.len() == k,
                forall|q: int| 0 <= q < k ==> #[trigger] picks[q] == picks_spec[q],
                forall|q: int| 0 <= q < k ==> #[trigger] picks[q] < self.athletes.len(),
            decreases draws.len() - k,
        {
            let d = draws[k] as usize;
            picks.push(mintable[d]);
            k = k + 1;
        }
        proof {
            assert(picks@ =~= picks_spec);
        }
        let code = String::from_str("C");
        proof {
            reveal_strlit("C");
            assert(code@ =~= seq!['C']);
            crate::rarity::lemma_rarity_of_code(Rarity::Common);
        }
        self.mint_draws(sender, &code, &picks)
    }

    /// Trades tokens of one athlete for a token of a higher tier of the same athlete:
    /// the given tokens go to this contract (`burn_to`), and the athlete's next token
    /// of `rarity` is minted to the sender.
    pub fn execute_upgrade_same_token(
        &mut self,
        sender: &String,
        burn_to: &String,
        rarity: &String,
        tokens: &Vec<String>,
        athlete_id: &String,
    ) -> (r: Result<Vec<OutMsg>, ContractError>)
        requires
            old(self).wf(),
        ensures
            final(self).wf(),
            r.is_err() ==> *final(self) == *old(self),
            !old(self).has_athlete(athlete_id@) ==> r == (Err::<Vec<OutMsg>, ContractError>(
                ContractError::DoesNotExist {},
            )),
            forall|i: int|
                old(self).names(athlete_id@, i) ==> {
                    let rr = rarity_of(rarity@);
                    let picks = seq![i as u64];
                    &&& r.is_ok() == old(self).spec_mintable(i, rr)
                    &&& r.is_err() ==> r == (Err::<Vec<OutMsg>, ContractError>(ContractError::Capped {}))
                    &&& r.is_ok() ==> old(self).counted(&*final(self), rr, picks)
                    &&& r.is_ok() ==> r.unwrap().len() == tokens.len() + 1
                    &&& r.is_ok() ==> forall|k: int|
                        0 <= k < tokens.len() ==> is_transfer_of(
                            #[trigger] r.unwrap()[k],
                            old(self).info.athlete_addr@,
                            burn_to@,
                            tokens[k]@,
                        )
                    &&& r.is_ok() ==> old(self).mints_drawn(r.unwrap()@.skip(tokens.len() as int), sender@, rarity@, picks)
                },
    {
        let i = match self.find_athlete(athlete_id) {
            None => {
                return Err(ContractError::DoesNotExist {});
            },
            Some(i) => i,
        };
        proof {
            assert forall|j: int| old(self).names(athlete_id@, j) implies j == i by {
                crate::token_id::lemma_decimal_injective(j as nat, i as nat);
            }
        }
        let mut burns = self.burn_msgs(tokens, burn_to);
        let picks: Vec<u64> = vec![i as u64];
        proof {
            let rr = rarity_of(rarity@);
            assert(picks@ =~= seq![i as u64]);
            assert forall|j: int| 0 <= j < self.athletes.len() implies #[trigger] occurrences(picks@, j as u64) == if j == i {
                1nat
            } else {
                0nat
            } by {
                lemma_occurrences_single(i as u64, j as u64);
            }
            if self.spec_mintable(i as int, rr) {
                assert forall|j: int| 0 <= j < self.athletes.len() implies #[trigger] self.athletes[j].count_of(rr)
                    + occurrences(picks@, j as u64) <= self.info.cap_of(rr) by {
                    if j != i {
                        assert(occurrences(picks@, j as u64) == 0);
                    }
                }
            }
        }
        let mut mints = match self.mint_draws(sender, rarity, &picks) {
            Ok(m) => m,
            Err(e) => {
                return Err(e);
            },
        };
        let ghost b = burns@;
        let ghost m = mints@;
        burns.append(&mut mints);
        proof {
            assert(burns@.skip(tokens.len() as int) =~= m);
            assert forall|k: int| 0 <= k < tokens.len() implies #[trigger] burns@[k] == b[k] by {}
        }
        Ok(burns)
    }

    /// Trades tokens for a token of a random athlete: the given tokens go to this
    /// contract (`burn_to`), and the first chunk of the seed draws, from the athletes
    /// that can still mint a token of `rarity`, the athlete whose next token is minted.
    pub fn execute_upgrade_rand_token(
        &mut self,
        sender: &String,
        burn_to: &String,
        rarity: &String,
        tokens: &Vec<String>,
        rand_seed: &str,
    ) -> (r: Result<Vec<OutMsg>, ContractError>)
        requires
            old(self).wf(),
        ensures
            final(self).wf(),
            r.is_err() ==> *final(self) == *old(self),
            ({
                let rr = rarity_of(rarity@);
                let m = old(self).mintable_ids(rr);
                let picks = old(self).seed_picks(rr, rand_seed@).take(1);
                &&& m.len() == 0 ==> r == (Err::<Vec<OutMsg>, ContractError>(ContractError::Capped {}))
                &&& m.len() > 0 && (!is_hex(rand_seed@) || rand_seed@.len() == 0) ==> r == (Err::<
                    Vec<OutMsg>,
                    ContractError,
                >(ContractError::InvalidMessage {}))
                &&& r.is_ok() == (m.len() > 0 && is_hex(rand_seed@) && rand_seed@.len() > 0)
                &&& r.is_ok() ==> old(self).counted(&*final(self), rr, picks)
                &&& r.is_ok() ==> r.unwrap().len() == tokens.len() + 1
                &&& r.is_ok() ==> forall|k: int|
                    0 <= k < tokens.len() ==> is_transfer_of(
                        #[trigger] r.unwrap()[k],
                        old(self).info.athlete_addr@,
                        burn_to@,
                        tokens[k]@,
                    )
                &&& r.is_ok() ==> old(self).mints_drawn(r.unwrap()@.skip(tokens.len() as int), sender@, rarity@, picks)
            }),
    {
        let mut burns = self.burn_msgs(tokens, burn_to);
        let rr = Rarity::from_code(rarity.as_str());
        let mintable = self.mintable_list(rr);
        if mintable.len() == 0 {
            return Err(ContractError::Capped {});
        }
        let draws = match hex_to_athlete(rand_seed, mintable.len() as u64) {
            Ok(d) => d,
            Err(e) => {
                return Err(e);
            },
        };
        if draws.len() == 0 {
            return Err(ContractError::InvalidMessage {});
        }
        let a = mintable[draws[0] as usize];
        let picks: Vec<u64> = vec![a];
        proof {
            let sp = self.seed_picks(rr, rand_seed@);
            assert(sp.take(1) =~= picks@);
            assert(picks@ =~= seq![a]);
            assert forall|j: int| 0 <= j < self.athletes.len() implies #[trigger] occurrences(picks@, j as u64) == if j == a {
                1nat
            } else {
                0nat
            } by {
                lemma_occurrences_single(a, j as u64);
            }
            assert(self.spec_mintable(a as int, rr)) by {
                self.lemma_mintable_prefix_mintable(rr, self.athletes.len() as int);
            }
            assert forall|j: int| 0 <= j < self.athletes.len() implies #[trigger] self.athletes[j].count_of(rr)
                + occurrences(picks@, j as u64) <= self.info.cap_of(rr) by {
                if j != a {
                    assert(occurrences(picks@, j as u64) == 0);
                }
            }
        }
        let mut mints = match self.mint_draws(sender, rarity, &picks) {
            Ok(m) => m,
            Err(e) => {
                return Err(e);
            },
        };
        let ghost b = burns@;
        let ghost m = mints@;
        burns.append(&mut mints);
        proof {
            assert(burns@.skip(tokens.len() as int) =~= m);
            assert forall|k: int| 0 <= k < tokens.len() implies #[trigger] burns@[k] == b[k] by {}
        }
        Ok(burns)
    }

    proof fn lemma_mintable_prefix_mintable(&self, r: Rarity, n: int)
        requires
            0 <= n <= self.athletes.len(),
        ensures
            forall|j: int|
                0 <= j < self.mintable_prefix(r, n).len() ==> self.spec_mintable(
                    #[trigger] self.mintable_prefix(r, n)[j] as int,
                    r,
                ),
        decreases n,
    {
        if n > 0 {
            self.lemma_mintable_prefix_mintable(r, n - 1);
            self.lemma_mintable_prefix_bounded(r, n - 1);
        }
    }

    /// Locks a token for a game: it must have a usage left; the update locks it until
    /// `now` plus the duration ("hour", "day", "week", else a minute) and spends one usage.
    pub fn execute_lock_token(
        &self,
        token_id: &String,
        token: &NftInfoResponse,
        now: Timestamp,
        duration: &String,
    ) -> (r: Result<OutMsg, ContractError>)
        ensures
            token.extension.usage == 0 ==> r == (Err::<OutMsg, ContractError>(ContractError::UsageCapped {})),
            token.extension.usage > 0 ==> {
                let until = now.nanos + lock_seconds(duration@) * 1_000_000_000;
                &&& r.is_ok() == (until <= u64::MAX)
                &&& r.is_ok() ==> is_update_of(
                    r.unwrap(),
                    self.info.athlete_addr@,
                    token_id@,
                    *token,
                    true,
                    Some(Timestamp { nanos: until as u64 }),
                    (token.extension.usage - 1) as u64,
                )
                &&& r.is_err() ==> r == (Err::<OutMsg, ContractError>(ContractError::Overflow {}))
            },
    {
        if !query_use_token(token) {
            return Err(ContractError::UsageCapped {});
        }
        let secs = lock_duration(duration);
        let until = match now.plus_seconds(secs) {
            Some(t) => t,
            None => {
                return Err(ContractError::Overflow {});
            },
        };
        let extension = TokenExtension {
            athlete_id: token.extension.athlete_id.clone(),
            rarity: token.extension.rarity.clone(),
            is_locked: true,
            unlock_date: Some(until),
            usage: token.extension.usage - 1,
        };
        let msg = TokenMsg::UpdateToken { token_id: token_id.clone(), token_uri: token.token_uri.clone(), extension };
        Ok(OutMsg::Token { contract_addr: self.info.athlete_addr.clone(), msg })
    }

    /// Unlocks a token once its unlock date has passed; the update clears the lock and
    /// its date and keeps the usages left. Fails with `Locked` before that.
    pub fn execute_unlock_token(&self, token_id: &String, token: &NftInfoResponse, now: Timestamp) -> (r: Result<
        OutMsg,
        ContractError,
    >)
        ensures
            r.is_ok() == spec_can_unlock(*token, now),
            r.is_err() ==> r == (Err::<OutMsg, ContractError>(ContractError::Locked {})),
            r.is_ok() ==> is_update_of(
                r.unwrap(),
                self.info.athlete_addr@,
                token_id@,
                *token,
                false,
                None,
                token.extension.usage,
            ),
    {
        if !query_unlock_token(token, now) {
            return Err(ContractError::Locked {});
        }
        let extension = TokenExtension {
            athlete_id: token.extension.athlete_id.clone(),
            rarity: token.extension.rarity.clone(),
            is_locked: false,
            unlock_date: None,
            usage: token.extension.usage,
        };
        let msg = TokenMsg::UpdateToken { token_id: token_id.clone(), token_uri: token.token_uri.clone(), extension };
        Ok(OutMsg::Token { contract_addr: self.info.athlete_addr.clone(), msg })
    }

    /// Moves stablecoins out of the contract to the administrator; only the administrator may.
    pub fn execute_transfer(&self, sender: &String, amount: u128) -> (r: Result<OutMsg, ContractError>)
        ensures
            sender@ != self.info.admin_addr@ ==> r == (Err::<OutMsg, ContractError>(ContractError::Unauthorized {})),
            sender@ == self.info.admin_addr@ ==> r.is_ok() && (match r.unwrap() {
                OutMsg::BankSend { to_address, amount: c } => to_address@ == sender@ && c.denom@ == "uusd"@
                    && c.amount == amount,
                _ => false,
            }),
    {
        if *sender != self.info.admin_addr {
            return Err(ContractError::Unauthorized {});
        }
        Ok(OutMsg::BankSend { to_address: sender.clone(), amount: Coin { denom: String::from_str("uusd"), amount } })
    }

    /// Hands minting rights on the token contract to a new contract; only the administrator may.
    pub fn execute_token_turnover(&self, sender: &String, new_contract: &String) -> (r: Result<OutMsg, ContractError>)
        ensures
            sender@ != self.info.admin_addr@ ==> r == (Err::<OutMsg, ContractError>(ContractError::Unauthorized {})),
            sender@ == self.info.admin_addr@ ==> r.is_ok() && (match r.unwrap() {
                OutMsg::Token { contract_addr, msg } => contract_addr@ == self.info.athlete_addr@ && (match msg {
                    TokenMsg::UpdateMinter { minter } => minter@ == new_contract@,
                    _ => false,
                }),
                _ => false,
            }),
    {
        if *sender != self.info.admin_addr {
            return Err(ContractError::Unauthorized {});
        }
        let msg = TokenMsg::UpdateMinter { minter: new_contract.clone() };
        Ok(OutMsg::Token { contract_addr: self.info.athlete_addr.clone(), msg })
    }

    /// Points the contract at a new token contract; only the administrator may.
    pub fn execute_update_cw721(&mut self, sender: &String, new_contract: &String) -> (r: Result<(), ContractError>)
        requires
            old(self).wf(),
        ensures
            final(self).wf(),
            r.is_ok() == (sender@ == old(self).info.admin_addr@),
            r.is_err() ==> r == (Err::<(), ContractError>(ContractError::Unauthorized {})) && *final(self) == *old(self),
            r.is_ok() ==> final(self).info == (ContractInfoResponse { athlete_addr: *new_contract, ..old(self).info }),
            final(self).athletes == old(self).athletes,
            final(self).total_deposit == old(self).total_deposit,
            final(self).last_round == old(self).last_round,
    {
        if *sender != self.info.admin_addr {
            return Err(ContractError::Unauthorized {});
        }
        self.info.athlete_addr = new_contract.clone();
        Ok(())
    }

    /// Points the contract at a new marketplace; only the administrator may.
    pub fn execute_update_marketplace(&mut self, sender: &String, new_contract: &String) -> (r: Result<
        (),
        ContractError,
    >)
        requires
            old(self).wf(),
        ensures
            final(self).wf(),
            r.is_ok() == (sender@ == old(self).info.admin_addr@),
            r.is_err() ==> r == (Err::<(), ContractError>(ContractError::Unauthorized {})) && *final(self) == *old(self),
            r.is_ok() ==> final(self).info == (ContractInfoResponse { marketplace_addr: *new_contract, ..old(self).info }),
            final(self).athletes == old(self).athletes,
            final(self).total_deposit == old(self).total_deposit,
            final(self).last_round == old(self).last_round,
    {
        if *sender != self.info.admin_addr {
            return Err(ContractError::Unauthorized {});
        }
        self.info.marketplace_addr = new_contract.clone();
        Ok(())
    }

    /// Forwards the first "uusd" coin among the funds, less tax, to the yield protocol
    /// and adds it to the deposited total.
    pub fn execute_deposit(&mut self, funds: &Vec<Coin>, tax_rate: u128, tax_cap: u128) -> (r: Result<
        OutMsg,
        ContractError,
    >)
        requires
            old(self).wf(),
        ensures
            final(self).wf(),
            ({
                let gross = first_amount(funds@, "uusd"@);
                let net: int = if tax_rate as int + DECIMAL_FRACTION as int <= u128::MAX {
                    gross as int - tax_of(gross, tax_rate, tax_cap)
                } else {
                    gross as int
                };
                &&& r.is_ok() == (old(self).total_deposit as int + net <= u64::MAX)
                &&& r.is_err() ==> r == (Err::<OutMsg, ContractError>(ContractError::Overflow {})) && *final(self)
                    == *old(self)
                &&& r.is_ok() ==> final(self).total_deposit == old(self).total_deposit + net
                &&& r.is_ok() ==> (match r.unwrap() {
                    OutMsg::AnchorDeposit { contract_addr, funds: c } => contract_addr@ == old(self).info.anchor_addr@
                        && c.denom@ == "uusd"@ && c.amount == net,
                    _ => false,
                })
            }),
            final(self).info == old(self).info,
            final(self).athletes == old(self).athletes,
            final(self).last_round == old(self).last_round,
    {
        let denom = String::from_str("uusd");
        let gross = deposit_amount(funds, &denom);
        let coin = deduct_tax(Coin { denom, amount: gross }, tax_rate, tax_cap);
        if coin.amount > (u64::MAX - self.total_deposit) as u128 {
            return Err(ContractError::Overflow {});
        }
        self.total_deposit = self.total_deposit + coin.amount as u64;
        Ok(OutMsg::AnchorDeposit { contract_addr: self.info.anchor_addr.clone(), funds: coin })
    }

    /// Redeems `amount` of stablecoins from the yield protocol: sends
    /// `amount / (1 + exchange_rate)` of its yield-bearing token (from contract
    /// `aterra_contract`) back to it. `exchange_rate` is a decimal in atomic units.
    pub fn execute_redeem(&self, amount: u128, exchange_rate: u128, aterra_contract: &String) -> (r: Result<
        OutMsg,
        ContractError,
    >)
        ensures
            r.is_ok() == (exchange_rate as int + DECIMAL_FRACTION as int <= u128::MAX),
            r.is_err() ==> r == (Err::<OutMsg, ContractError>(ContractError::Overflow {})),
            r.is_ok() ==> (match r.unwrap() {
                OutMsg::AnchorRedeem { token_contract, amount: a, anchor_addr } => token_contract@
                    == aterra_contract@ && a == discounted(amount, exchange_rate) && anchor_addr@
                    == self.info.anchor_addr@,
                _ => false,
            }),
    {
        match discount(amount, exchange_rate) {
            None => Err(ContractError::Overflow {}),
            Some(a) => Ok(
                OutMsg::AnchorRedeem {
                    token_contract: aterra_contract.clone(),
                    amount: a,
                    anchor_addr: self.info.anchor_addr.clone(),
                },
            ),
        }
    }

    /// Records the randomness round last used and returns it.
    pub fn update_last_round(&mut self, new_round: u64) -> (r: u64)
        requires
            old(self).wf(),
        ensures
            final(self).wf(),
            r == new_round,
            final(self).last_round == new_round,
            final(self).info == old(self).info,
            final(self).athletes == old(self).athletes,
            final(self).total_deposit == old(self).total_deposit,
    {
        self.last_round = new_round;
        new_round
    }

/// Takes a draw seed for `count` classes from a beacon response and records its
    /// round: the seed is the last `3 * count` characters of the randomness in
    /// lowercase hex. `None`, with the round still recorded, where `count` is zero or
    /// the randomness is too short.
    pub fn query_terrand(&mut self, response: &LatestRandomResponse, count: u64) -> (r: Option<String>)
        requires
            old(self).wf(),
        ensures
            final(self).wf(),
            final(self).last_round == response.round,
            final(self).info == old(self).info,
            final(self).athletes == old(self).athletes,
            final(self).total_deposit == old(self).total_deposit,
            r.is_some() == (1 <= count && 3 * count <= 2 * response.randomness@.len()),
            r.is_some() ==> r.unwrap()@ == lower_hex(response.randomness@).subrange(
                2 * response.randomness@.len() - 3 * count,
                2 * response.randomness@.len() as int,
            ),
    {
        self.update_last_round(response.round);
        seed_from_randomness(&response.randomness, count)
    }

    /// Adds to the deposited principal; fails with `Overflow` where the sum does not fit.
    pub fn increase_deposit(&mut self, amount: u64) -> (r: Result<u64, ContractError>)
        requires
            old(self).wf(),
        ensures
            final(self).wf(),
            r.is_ok() == (old(self).total_deposit + amount <= u64::MAX),
            r.is_ok() ==> r.unwrap() == old(self).total_deposit + amount && final(self).total_deposit == r.unwrap(),
            r.is_err() ==> r == (Err::<u64, ContractError>(ContractError::Overflow {})) && *final(self) == *old(self),
            final(self).info == old(self).info,
            final(self).athletes == old(self).athletes,
            final(self).last_round == old(self).last_round,
    {
        if amount > u64::MAX - self.total_deposit {
            return Err(ContractError::Overflow {});
        }
        self.total_deposit = self.total_deposit + amount;
        Ok(self.total_deposit)
    }

    /// Takes from the deposited principal; fails with `Overflow` where it would go below zero.
    pub fn decrease_deposit(&mut self, amount: u64) -> (r: Result<u64, ContractError>)
        requires
            old(self).wf(),
        ensures
            final(self).wf(),
            r.is_ok() == (amount <= old(self).total_deposit),
            r.is_ok() ==> r.unwrap() == old(self).total_deposit - amount && final(self).total_deposit == r.unwrap(),
            r.is_err() ==> r == (Err::<u64, ContractError>(ContractError::Overflow {})) && *final(self) == *old(self),
            final(self).info == old(self).info,
            final(self).athletes == old(self).athletes,
            final(self).last_round == old(self).last_round,
    {
        if amount > self.total_deposit {
            return Err(ContractError::Overflow {});
        }
        self.total_deposit = self.total_deposit - amount;
        Ok(self.total_deposit)
    }

    /// The price of a pack.
    pub fn query_pack_price(&self) -> (r: u64)
        ensures
            r == self.info.pack_price,
    {
        self.info.pack_price
    }

    /// The deposited principal.
    pub fn total_deposit(&self) -> (r: u64)
        ensures
            r == self.total_deposit,
    {
        self.total_deposit
    }

    /// The number of registered athletes.
    pub fn athlete_count(&self) -> (r: u64)
        ensures
            r == self.athletes.len(),
    {
        self.athletes.len() as u64
    }
}

/// An athlete's per-rarity counter never exceeds its cap: every operation keeps the
/// contract well formed, and in a well-formed contract each counter is at most its cap.
pub proof fn lemma_athlete_counter_within_cap(c: &FantasyContract, i: int, r: Rarity)
    requires
        c.wf(),
        0 <= i < c.athletes.len(),
    ensures
        c.athletes[i].count_of(r) <= c.info.cap_of(r),
{
}

/// Within one draw, a later draw of the same athlete gets a larger serial, and every
/// serial is above the athlete's counter before the draw; so the identifiers minted
/// for one (symbol, rarity) pair never repeat, neither within a draw nor across draws.
pub proof fn lemma_draw_ids_unique(c: &FantasyContract, r: Rarity, picks: Seq<u64>, k1: int, k2: int)
    requires
        0 <= k1 < k2 < picks.len(),
        picks[k1] == picks[k2],
        forall|k: int| 0 <= k < picks.len() ==> #[trigger] picks[k] < c.athletes.len(),
    ensures
        c.serial(r, picks, k1) > c.athletes[picks[k1] as int].count_of(r),
        c.serial(r, picks, k1) < c.serial(r, picks, k2),
        token_id_of(c.athletes[picks[k1] as int].symbol@, r, c.serial(r, picks, k1)) != token_id_of(
            c.athletes[picks[k2] as int].symbol@,
            r,
            c.serial(r, picks, k2),
        ),
{
    let x = picks[k1];
    lemma_occurrences_step(picks, k1, x);
    lemma_occurrences_step(picks, k2, x);
    let t = picks.take(k2);
    lemma_occurrences_prefix_le(t, k1 + 1, x);
    assert(t.take(k1 + 1) =~= picks.take(k1 + 1));
    if token_id_of(c.athletes[x as int].symbol@, r, c.serial(r, picks, k1)) == token_id_of(
        c.athletes[x as int].symbol@,
        r,
        c.serial(r, picks, k2),
    ) {
        crate::token_id::lemma_token_ids_unique(
            c.athletes[x as int].symbol@,
            r,
            c.serial(r, picks, k1),
            c.serial(r, picks, k2),
        );
    }
}

} // verus!
