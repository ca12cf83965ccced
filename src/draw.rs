use vstd::prelude::*;
use crate::error::ContractError;

verus! {

/// The value of a hexadecimal digit (either case), or `None` for any other character.
pub open spec fn hex_digit_value(c: char) -> Option<nat> {
    if '0' <= c && c <= '9' {
        Some((c as nat - '0' as nat) as nat)
    } else if 'a' <= c && c <= 'f' {
        Some((c as nat - 'a' as nat + 10) as nat)
    } else if 'A' <= c && c <= 'F' {
        Some((c as nat - 'A' as nat + 10) as nat)
    } else {
        None
    }
}

/// Every character of `s` is a hexadecimal digit.
pub open spec fn is_hex(s: Seq<char>) -> bool {
    forall|i: int| 0 <= i < s.len() ==> (#[trigger] hex_digit_value(s[i])).is_some()
}

/// The number that a string of hexadecimal digits denotes.
pub open spec fn hex_value(s: Seq<char>) -> nat
    decreases s.len(),
{
    if s.len() == 0 {
        0
    } else {
        hex_value(s.drop_last()) * 16 + hex_digit_value(s.last()).unwrap_or(0)
    }
}

/// The number of three-character chunks of `s`; the last one may be shorter.
pub open spec fn chunk_count(s: Seq<char>) -> int {
    (s.len() as int + 2) / 3
}

/// The `k`-th three-character chunk of `s`.
pub open spec fn chunk(s: Seq<char>, k: int) -> Seq<char> {
    s.subrange(3 * k, if 3 * k + 3 <= s.len() { 3 * k + 3 } else { s.len() as int })
}

/// The draws that a seed gives over `class_count` classes: each chunk's value modulo the count.
pub open spec fn draws_of(seed: Seq<char>, class_count: nat, draws: Seq<u64>) -> bool {
    &&& draws.len() == chunk_count(seed)
    &&& forall|k: int| 0 <= k < draws.len() ==> #[trigger] draws[k] == hex_value(chunk(seed, k)) % class_count
}

/// The lowercase hexadecimal digit of a value below 16.
pub open spec fn nibble_char(v: nat) -> char {
    if v < 10 {
        ('0' as nat + v) as char
    } else {
        ('a' as nat + (v - 10)) as char
    }
}

/// Lowercase hexadecimal text of a byte string, two digits per byte, high digit first.
pub open spec fn lower_hex(b: Seq<u8>) -> Seq<char>
    decreases b.len(),
{
    if b.len() == 0 {
        Seq::empty()
    } else {
        lower_hex(b.drop_last()) + seq![nibble_char(b.last() as nat / 16), nibble_char(b.last() as nat % 16)]
    }
}

proof fn lemma_lower_hex_len(b: Seq<u8>)
    ensures
        lower_hex(b).len() == 2 * b.len(),
    decreases b.len(),
{
    if b.len() > 0 {
        lemma_lower_hex_len(b.drop_last());
    }
}

fn hex_digit(c: char) -> (r: Option<u64>)
    ensures
        r.is_some() == hex_digit_value(c).is_some(),
        r.is_some() ==> r.unwrap() as nat == hex_digit_value(c).unwrap() && r.unwrap() < 16,
{
    if '0' <= c && c <= '9' {
        Some((c as u32 - '0' as u32) as u64)
    } else if 'a' <= c && c <= 'f' {
        Some((c as u32 - 'a' as u32 + 10) as u64)
    } else if 'A' <= c && c <= 'F' {
        Some((c as u32 - 'A' as u32 + 10) as u64)
    } else {
        None
    }
}

/// Turns a hexadecimal seed into class indices: the seed is cut into chunks of three
/// characters, each chunk is read as a hexadecimal number and reduced modulo
/// `class_count`. A seed with a character that is not a hex digit is rejected.
pub fn hex_to_athlete(rand_seed: &str, class_count: u64) -> (r: Result<Vec<u64>, ContractError>)
    requires
        class_count > 0,
    ensures
        r.is_ok() == is_hex(rand_seed@),
        r.is_ok() ==> draws_of(rand_seed@, class_count as nat, r.unwrap()@),
        r.is_err() ==> r == (Err::<Vec<u64>, ContractError>(ContractError::InvalidMessage {})),
{
    let n = rand_seed.unicode_len();
    let ghost s = rand_seed@;
    let mut out: Vec<u64> = Vec::new();
    let mut start: usize = 0;
    while start < n
        invariant
            n == s.len(),
            s == rand_seed@,
            class_count > 0,
            start <= n,
            out.len() == (start + 2) / 3,
            start < n ==> start == 3 * out.len(),
            forall|i: int| 0 <= i < start ==> (#[trigger] hex_digit_value(s[i])).is_some(),
            forall|k: int| 0 <= k < out.len() ==> #[trigger] out[k] == hex_value(chunk(s, k)) % (class_count as nat),
        decreases n - start,
    {
        let end: usize = if n - start < 3 { n } else { start + 3 };
        let mut v: u64 = 0;
        let mut j: usize = start;
        while j < end
            invariant
                n == s.len(),
                s == rand_seed@,
                start <= j <= end <= n,
                end - start <= 3,
                v as nat == hex_value(s.subrange(start as int, j as int)),
                j - start == 0 ==> v == 0,
                j - start <= 1 ==> v < 16,
                j - start <= 2 ==> v < 256,
                v < 4096,
                forall|i: int| 0 <= i < j ==> (#[trigger] hex_digit_value(s[i])).is_some(),
            decreases end - j,
        {
            let c = rand_seed.get_char(j);
            match hex_digit(c) {
                None => {
                    return Err(ContractError::InvalidMessage {});
                },
                Some(d) => {
                    proof {
                        let t = s.subrange(start as int, j + 1);
                        assert(t.drop_last() =~= s.subrange(start as int, j as int));
                        assert(t.last() == c);
                    }
                    v = v * 16 + d;
                },
            }
            j = j + 1;
        }
        proof {
            let k = out.len() as int;
            assert(chunk(s, k) =~= s.subrange(start as int, end as int));
        }
        out.push(v % class_count);
        proof {
            let k = out.len() - 1;
            assert forall|q: int| 0 <= q < out.len() implies #[trigger] out[q] == hex_value(chunk(s, q)) % (class_count as nat) by {
                if q < k {
                } else {
                    assert(chunk(s, q) =~= s.subrange(start as int, end as int));
                }
            }
        }
        start = end;
    }
    Ok(out)
}

/// Relies on hex::encode: the result is the lowercase hexadecimal text of the bytes,
/// two digits per byte, high digit first.
#[verifier::external_body]
fn encode_hex(bytes: &Vec<u8>) -> (r: String)
    ensures
        r@ == lower_hex(bytes@),
{
    hex::encode(bytes)
}

/// The seed that a draw of `count` classes takes from a randomness beacon's output:
/// the last `3 * count` characters of the output's lowercase hex text. There is
/// none when `count` is zero or the text is shorter than that.
pub fn seed_from_randomness(randomness: &Vec<u8>, count: u64) -> (r: Option<String>)
    ensures
        r.is_some() == (1 <= count && 3 * count <= 2 * randomness@.len()),
        r.is_some() ==> r.unwrap()@ == lower_hex(randomness@).subrange(
            2 * randomness@.len() - 3 * count,
            2 * randomness@.len() as int,
        ),
{
    let text = encode_hex(randomness);
    proof {
        lemma_lower_hex_len(randomness@);
    }
    let len = text.as_str().unicode_len();
    if count == 0 || count > (len / 3) as u64 {
        return None;
    }
    let want = (3 * count) as usize;
    let tail = text.as_str().substring_char(len - want, len);
    Some(String::from_str(tail))
}

} // verus!
