use vstd::prelude::*;

verus! {

/// The four rarity tiers, each with its own supply cap and mint counter.
#[derive(Debug, Clone, Copy, PartialEq, Eq, Structural)]
pub enum Rarity {
    Common,
    Uncommon,
    Rare,
    Legendary,
}

/// The tier that a rarity code names: "U", "R" and "L" name the upper tiers,
/// every other code is read as common.
pub open spec fn rarity_of(code: Seq<char>) -> Rarity {
    if code == seq!['U'] {
        Rarity::Uncommon
    } else if code == seq!['R'] {
        Rarity::Rare
    } else if code == seq!['L'] {
        Rarity::Legendary
    } else {
        Rarity::Common
    }
}

/// Reading a tier's own code gives the tier back.
pub proof fn lemma_rarity_of_code(r: Rarity)
    ensures
        rarity_of(seq![r.code_char()]) == r,
{
    let s = seq![r.code_char()];
    assert(s[0] == r.code_char());
    assert(seq!['U'][0] == 'U');
    assert(seq!['R'][0] == 'R');
    assert(seq!['L'][0] == 'L');
}

impl Rarity {
    /// The one-letter code that token identifiers embed.
    pub open spec fn code_char(self) -> char {
        match self {
            Rarity::Common => 'C',
            Rarity::Uncommon => 'U',
            Rarity::Rare => 'R',
            Rarity::Legendary => 'L',
        }
    }

    /// How many times a freshly minted token of this tier can be locked for a game.
    pub open spec fn spec_usage_cap(self) -> u64 {
        match self {
            Rarity::Common => 3,
            Rarity::Uncommon => 5,
            Rarity::Rare => 10,
            Rarity::Legendary => 999_999_999,
        }
    }

    /// Reads a rarity code.
    pub fn from_code(code: &str) -> (r: Rarity)
        ensures
            r == rarity_of(code@),
    {
        let n = code.unicode_len();
        if n != 1 {
            assert(code@ != seq!['U'] && code@ != seq!['R'] && code@ != seq!['L']);
            return Rarity::Common;
        }
        let c = code.get_char(0);
        assert(code@ =~= seq![c]);
        if c == 'U' {
            Rarity::Uncommon
        } else if c == 'R' {
            Rarity::Rare
        } else if c == 'L' {
            Rarity::Legendary
        } else {
            Rarity::Common
        }
    }

    /// The one-letter code of this tier, as a string.
    pub fn code(&self) -> (r: &'static str)
        ensures
            r@ == seq![self.code_char()],
    {
        match self {
            Rarity::Common => {
                proof {
                    reveal_strlit("C");
                }
                "C"
            },
            Rarity::Uncommon => {
                proof {
                    reveal_strlit("U");
                }
                "U"
            },
            Rarity::Rare => {
                proof {
                    reveal_strlit("R");
                }
                "R"
            },
            Rarity::Legendary => {
                proof {
                    reveal_strlit("L");
                }
                "L"
            },
        }
    }

    /// The usage allowance of a freshly minted token of this tier.
    pub fn usage_cap(&self) -> (r: u64)
        ensures
            r == self.spec_usage_cap(),
    {
        match self {
            Rarity::Common => 3,
            Rarity::Uncommon => 5,
            Rarity::Rare => 10,
            Rarity::Legendary => 999_999_999,
        }
    }
}

} // verus!
