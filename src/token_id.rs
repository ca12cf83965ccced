use vstd::prelude::*;
use crate::rarity::Rarity;

verus! {

/// The character of a decimal digit.
pub open spec fn digit_char(d: nat) -> char {
    if d == 0 { '0' }
    else if d == 1 { '1' }
    else if d == 2 { '2' }
    else if d == 3 { '3' }
    else if d == 4 { '4' }
    else if d == 5 { '5' }
    else if d == 6 { '6' }
    else if d == 7 { '7' }
    else if d == 8 { '8' }
    else { '9' }
}

/// The decimal representation of `n`, without leading zeros.
pub open spec fn decimal(n: nat) -> Seq<char>
    decreases n,
{
    if n < 10 {
        seq![digit_char(n)]
    } else {
        decimal(n / 10).push(digit_char(n % 10))
    }
}

/// The identifier of the `n`-th token of a tier: symbol, rarity code, then `n` in decimal.
pub open spec fn token_id_of(symbol: Seq<char>, rarity: Rarity, n: nat) -> Seq<char> {
    symbol.push(rarity.code_char()) + decimal(n)
}

proof fn lemma_digit_char_injective(a: nat, b: nat)
    requires
        a < 10,
        b < 10,
        digit_char(a) == digit_char(b),
    ensures
        a == b,
{
}

proof fn lemma_decimal_nonempty(n: nat)
    ensures
        decimal(n).len() >= 1,
        n >= 10 ==> decimal(n).len() >= 2,
    decreases n,
{
    if n >= 10 {
        lemma_decimal_nonempty(n / 10);
    }
}

/// Distinct numbers have distinct decimal representations.
pub proof fn lemma_decimal_injective(n: nat, m: nat)
    requires
        decimal(n) == decimal(m),
    ensures
        n == m,
    decreases n,
{
    lemma_decimal_nonempty(n);
    lemma_decimal_nonempty(m);
    if n < 10 && m < 10 {
        assert(decimal(n)[0] == digit_char(n));
        assert(decimal(m)[0] == digit_char(m));
        lemma_digit_char_injective(n, m);
    } else if n >= 10 && m >= 10 {
        let dn = decimal(n);
        let dm = decimal(m);
        assert(dn.last() == digit_char(n % 10));
        assert(dm.last() == digit_char(m % 10));
        lemma_digit_char_injective(n % 10, m % 10);
        assert(dn.drop_last() =~= decimal(n / 10));
        assert(dm.drop_last() =~= decimal(m / 10));
        lemma_decimal_injective(n / 10, m / 10);
    } else {
        assert(decimal(n).len() != decimal(m).len());
    }
}

/// Token identifiers are unique within a (symbol, rarity) pair: two counter values
/// give the same identifier only if they are equal. Since counters only grow, no
/// identifier is ever generated twice for a collection.
pub proof fn lemma_token_ids_unique(symbol: Seq<char>, rarity: Rarity, n: nat, m: nat)
    requires
        token_id_of(symbol, rarity, n) == token_id_of(symbol, rarity, m),
    ensures
        n == m,
{
    let p = symbol.push(rarity.code_char());
    let a = token_id_of(symbol, rarity, n);
    let b = token_id_of(symbol, rarity, m);
    assert(a.subrange(p.len() as int, a.len() as int) =~= decimal(n));
    assert(b.subrange(p.len() as int, b.len() as int) =~= decimal(m));
    lemma_decimal_injective(n, m);
}

/// Identifiers of different tiers never collide within one symbol.
pub proof fn lemma_token_ids_differ_across_tiers(symbol: Seq<char>, r1: Rarity, r2: Rarity, n: nat, m: nat)
    requires
        r1 != r2,
    ensures
        token_id_of(symbol, r1, n) != token_id_of(symbol, r2, m),
{
    let a = token_id_of(symbol, r1, n);
    let b = token_id_of(symbol, r2, m);
    assert(a[symbol.len() as int] == r1.code_char());
    assert(b[symbol.len() as int] == r2.code_char());
}

fn digit_str(d: u64) -> (r: &'static str)
    requires
        d < 10,
    ensures
        r@ == seq![digit_char(d as nat)],
{
    if d == 0 {
        proof { reveal_strlit("0"); }
        "0"
    } else if d == 1 {
        proof { reveal_strlit("1"); }
        "1"
    } else if d == 2 {
        proof { reveal_strlit("2"); }
        "2"
    } else if d == 3 {
        proof { reveal_strlit("3"); }
        "3"
    } else if d == 4 {
        proof { reveal_strlit("4"); }
        "4"
    } else if d == 5 {
        proof { reveal_strlit("5"); }
        "5"
    } else if d == 6 {
        proof { reveal_strlit("6"); }
        "6"
    } else if d == 7 {
        proof { reveal_strlit("7"); }
        "7"
    } else if d == 8 {
        proof { reveal_strlit("8"); }
        "8"
    } else {
        proof { reveal_strlit("9"); }
        "9"
    }
}

/// Writes `n` in decimal.
pub fn decimal_string(n: u64) -> (r: String)
    ensures
        r@ == decimal(n as nat),
    decreases n,
{
    if n < 10 {
        String::from_str(digit_str(n))
    } else {
        let mut s = decimal_string(n / 10);
        s.append(digit_str(n % 10));
        s
    }
}

/// Builds the identifier `<symbol><rarity code><n>`.
pub fn make_token_id(symbol: &str, rarity: Rarity, n: u64) -> (r: String)
    ensures
        r@ == token_id_of(symbol@, rarity, n as nat),
{
    let mut id = String::from_str(symbol);
    id.append(rarity.code());
    let digits = decimal_string(n);
    id.append(digits.as_str());
    proof {
        assert(symbol@ + seq![rarity.code_char()] =~= symbol@.push(rarity.code_char()));
    }
    id
}

} // verus!
