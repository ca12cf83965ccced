use vstd::prelude::*;
use crate::time::Timestamp;

verus! {

/// One attribute of a token's metadata.
#[derive(Debug, Clone, PartialEq, Eq, Default)]
pub struct Trait {
    pub display_type: Option<String>,
    pub trait_type: String,
    pub value: String,
}

/// Token metadata in the common marketplace layout.
#[derive(Debug, Clone, PartialEq, Eq, Default)]
pub struct Metadata {
    pub token_uri: String,
    pub image: Option<String>,
    pub image_data: Option<String>,
    pub external_url: Option<String>,
    pub description: Option<String>,
    pub name: Option<String>,
    pub attributes: Option<Vec<Trait>>,
    pub background_color: Option<String>,
    pub animation_url: Option<String>,
    pub youtube_url: Option<String>,
    pub current_status: Option<String>,
}

/// The first trait of type `trait_type` in `s`.
pub open spec fn first_trait(s: Seq<Trait>, trait_type: Seq<char>) -> Option<Trait>
    decreases s.len(),
{
    if s.len() == 0 {
        None
    } else if s[0].trait_type@ == trait_type {
        Some(s[0])
    } else {
        first_trait(s.skip(1), trait_type)
    }
}

/// `t` begins with `p`.
pub open spec fn has_prefix(t: Seq<char>, p: Seq<char>) -> bool {
    p.len() <= t.len() && t.subrange(0, p.len() as int) == p
}

/// The image link as served: links to IPFS ("ipfs://") or the web ("http") as they
/// are, any other link with `prefix` in front.
pub open spec fn image_link(image: Seq<char>, prefix: Seq<char>) -> Seq<char> {
    if has_prefix(image, "ipfs://"@) || has_prefix(image, "http"@) {
        image
    } else {
        prefix + image
    }
}

/// Whether `t` begins with `p`.
pub fn starts_with(t: &str, p: &str) -> (r: bool)
    ensures
        r == has_prefix(t@, p@),
{
    let n = p.unicode_len();
    if n > t.unicode_len() {
        return false;
    }
    let mut i: usize = 0;
    while i < n
        invariant
            n == p@.len(),
            n <= t@.len(),
            i <= n,
            forall|j: int| 0 <= j < i ==> t@[j] == p@[j],
        decreases n - i,
    {
        if t.get_char(i) != p.get_char(i) {
            proof {
                assert(t@.subrange(0, n as int)[i as int] != p@[i as int]);
            }
            return false;
        }
        i = i + 1;
    }
    proof {
        assert(t@.subrange(0, n as int) =~= p@);
    }
    true
}

fn copy_trait(t: &Trait) -> (r: Trait)
    ensures
        r == *t,
{
    Trait { display_type: t.display_type.clone(), trait_type: t.trait_type.clone(), value: t.value.clone() }
}

/// Reading and personalising token metadata.
pub trait MetaDataPersonalization: Sized {
    /// The first attribute of a type.
    spec fn decision_trait_of(&self, trait_type: Seq<char>) -> Option<Trait>;

    /// The image link as served under `prefix`.
    spec fn image_of(&self, prefix: Seq<char>) -> Option<Seq<char>>;

    /// The status text.
    spec fn status_of(&self) -> Option<Seq<char>>;

    /// The token URI.
    spec fn token_uri_of(&self) -> Seq<char>;

    /// `self` is `old` with the attributes of type `trait_type` set to `value`.
    spec fn personalized_from(&self, old: Self, trait_type: Seq<char>, value: Seq<char>) -> bool;

    fn get_decision_trait(&self, trait_type: &str) -> (r: Option<Trait>)
        ensures
            r == self.decision_trait_of(trait_type@),
    ;

    fn set_personalized_trait(&mut self, trait_type: &str, value: &str)
        ensures
            final(self).personalized_from(*old(self), trait_type@, value@),
    ;

    fn set_status(&mut self, status: &str)
        ensures
            final(self).status_of() == Some(status@),
    ;

    fn get_status(&self) -> (r: Option<String>)
        ensures
            r.is_some() == self.status_of().is_some(),
            r.is_some() ==> r.unwrap()@ == self.status_of().unwrap(),
    ;

    fn get_token_uri(&self) -> (r: String)
        ensures
            r@ == self.token_uri_of(),
    ;

    fn get_image(&self, prefix: &str) -> (r: Option<String>)
        ensures
            r.is_some() == self.image_of(prefix@).is_some(),
            r.is_some() ==> r.unwrap()@ == self.image_of(prefix@).unwrap(),
    ;

    fn set_image(&mut self, image: Option<String>)
        ensures
            forall|prefix: Seq<char>|
                #[trigger] final(self).image_of(prefix) == match image {
                    Some(i) => Some(image_link(i@, prefix)),
                    None => None,
                },
    ;
}

/// Fills in a token's metadata at mint time; implemented by users of the collection.
pub trait MetaPersonalize {
    fn perform_mint<M: MetaDataPersonalization>(&self, mint_meta: &mut M) -> Option<String>;
}

impl Metadata {
    /// `self` is `old` with every attribute of type `trait_type` given `value`, and the
    /// name set to `value`, where `old` has attributes; otherwise `self` is `old`.
    pub open spec fn personalized(self, old: Metadata, trait_type: Seq<char>, value: Seq<char>) -> bool {
        match old.attributes {
            None => self == old,
            Some(list) => {
                &&& self.attributes.is_some()
                &&& self.attributes.unwrap().len() == list.len()
                &&& forall|k: int|
                    0 <= k < list.len() ==> {
                        let a = #[trigger] self.attributes.unwrap()[k];
                        &&& a.display_type == list[k].display_type
                        &&& a.trait_type == list[k].trait_type
                        &&& a.value@ == if list[k].trait_type@ == trait_type { value } else { list[k].value@ }
                    }
                &&& self.name.is_some() && self.name.unwrap()@ == value
                &&& self.token_uri == old.token_uri
                &&& self.image == old.image
                &&& self.image_data == old.image_data
                &&& self.external_url == old.external_url
                &&& self.description == old.description
                &&& self.background_color == old.background_color
                &&& self.animation_url == old.animation_url
                &&& self.youtube_url == old.youtube_url
                &&& self.current_status == old.current_status
            },
        }
    }

    /// Sets every attribute of type `trait_type` to `value` and the name to `value`;
    /// metadata without attributes is left as it is.
    pub fn personalize(&mut self, trait_type: &str, value: &str)
        ensures
            final(self).personalized(*old(self), trait_type@, value@),
    {
        let tt = String::from_str(trait_type);
        let new_attr: Vec<Trait> = match &self.attributes {
            None => {
                return;
            },
            Some(list) => {
                let mut out: Vec<Trait> = Vec::new();
                let mut k: usize = 0;
                while k < list.len()
                    invariant
                        k <= list.len(),
                        out.len() == k,
                        tt@ == trait_type@,
                        forall|q: int|
                            0 <= q < k ==> {
                                let a = #[trigger] out@[q];
                                &&& a.display_type == list@[q].display_type
                                &&& a.trait_type == list@[q].trait_type
                                &&& a.value@ == if list@[q].trait_type@ == trait_type@ {
                                    value@
                                } else {
                                    list@[q].value@
                                }
                            },
                    decreases list.len() - k,
                {
                    if list[k].trait_type == tt {
                        out.push(
                            Trait {
                                display_type: list[k].display_type.clone(),
                                trait_type: list[k].trait_type.clone(),
                                value: String::from_str(value),
                            },
                        );
                    } else {
                        out.push(copy_trait(&list[k]));
                    }
                    k = k + 1;
                }
                out
            },
        };
        self.name = Some(String::from_str(value));
        self.attributes = Some(new_attr);
    }
}

impl MetaDataPersonalization for Metadata {
    open spec fn decision_trait_of(&self, trait_type: Seq<char>) -> Option<Trait> {
        match self.attributes {
            Some(list) => first_trait(list@, trait_type),
            None => None,
        }
    }

    open spec fn image_of(&self, prefix: Seq<char>) -> Option<Seq<char>> {
        match self.image {
            Some(i) => Some(image_link(i@, prefix)),
            None => None,
        }
    }

    open spec fn status_of(&self) -> Option<Seq<char>> {
        match self.current_status {
            Some(s) => Some(s@),
            None => None,
        }
    }

    open spec fn token_uri_of(&self) -> Seq<char> {
        self.token_uri@
    }

    open spec fn personalized_from(&self, old: Metadata, trait_type: Seq<char>, value: Seq<char>) -> bool {
        self.personalized(old, trait_type, value)
    }

    fn get_decision_trait(&self, trait_type: &str) -> (r: Option<Trait>) {
        let tt = String::from_str(trait_type);
        match &self.attributes {
            None => None,
            Some(list) => {
                let mut k: usize = 0;
                proof {
                    assert(list@.skip(0) =~= list@);
                }
                while k < list.len()
                    invariant
                        k <= list.len(),
                        tt@ == trait_type@,
                        self.decision_trait_of(trait_type@) == first_trait(list@, trait_type@),
                        first_trait(list@, trait_type@) == first_trait(list@.skip(k as int), trait_type@),
                    decreases list.len() - k,
                {
                    proof {
                        assert(list@.skip(k as int).skip(1) =~= list@.skip(k + 1));
                        assert(list@.skip(k as int)[0] == list@[k as int]);
                    }
                    if list[k].trait_type == tt {
                        proof {
                            assert(list@.skip(k as int)[0].trait_type@ == trait_type@);
                            assert(first_trait(list@.skip(k as int), trait_type@) == Some(list@[k as int]));
                        }
                        return Some(copy_trait(&list[k]));
                    }
                    k = k + 1;
                }
                None
            },
        }
    }

    fn set_personalized_trait(&mut self, trait_type: &str, value: &str) {
        self.personalize(trait_type, value);
    }

    fn set_status(&mut self, status: &str) {
        self.current_status = Some(String::from_str(status));
    }

    fn get_status(&self) -> (r: Option<String>) {
        self.current_status.clone()
    }

    fn get_token_uri(&self) -> (r: String) {
        self.token_uri.clone()
    }

    fn get_image(&self, prefix: &str) -> (r: Option<String>) {
        match &self.image {
            None => None,
            Some(i) => {
                if starts_with(i.as_str(), "ipfs://") || starts_with(i.as_str(), "http") {
                    Some(i.clone())
                } else {
                    Some(String::from_str(prefix).concat(i.as_str()))
                }
            },
        }
    }

    fn set_image(&mut self, image: Option<String>) {
        self.image = image;
    }
}

/// Game metadata of a token.
#[derive(Debug, Clone, PartialEq, Eq, Default)]
pub struct PlayibleInfo {
    /// Reference ID of the athlete.
    pub athlete_id: String,
    /// Rarity code.
    pub rarity: String,
    /// Whether the token is locked in a game.
    pub is_locked: bool,
    /// When a locked token may be unlocked.
    pub unlock_date: Option<Timestamp>,
    /// How many more times the token can be locked for a game.
    pub usage: u64,
}

/// Reading and writing a token's game metadata.
pub trait PlayiblePersonalization: Sized {
    spec fn athlete_id_of(&self) -> Seq<char>;

    spec fn rarity_code_of(&self) -> Seq<char>;

    spec fn is_locked_of(&self) -> bool;

    spec fn unlock_date_of(&self) -> Option<Timestamp>;

    spec fn usage_of(&self) -> u64;

    /// `self` and `other` agree on every field but those named false.
    open spec fn agrees(&self, other: &Self, athlete: bool, rarity: bool, locked: bool, date: bool, usage: bool) -> bool {
        &&& athlete ==> self.athlete_id_of() == other.athlete_id_of()
        &&& rarity ==> self.rarity_code_of() == other.rarity_code_of()
        &&& locked ==> self.is_locked_of() == other.is_locked_of()
        &&& date ==> self.unlock_date_of() == other.unlock_date_of()
        &&& usage ==> self.usage_of() == other.usage_of()
    }

    fn get_athlete_id(&self) -> (r: String)
        ensures
            r@ == self.athlete_id_of(),
    ;

    fn set_athlete_id(&mut self, athlete_id: &str)
        ensures
            final(self).athlete_id_of() == athlete_id@,
            final(self).agrees(old(self), false, true, true, true, true),
    ;

    fn get_rarity(&self) -> (r: String)
        ensures
            r@ == self.rarity_code_of(),
    ;

    fn set_rarity(&mut self, rarity: &str)
        ensures
            final(self).rarity_code_of() == rarity@,
            final(self).agrees(old(self), true, false, true, true, true),
    ;

    fn get_is_locked(&self) -> (r: bool)
        ensures
            r == self.is_locked_of(),
    ;

    fn set_is_locked(&mut self, is_locked: bool)
        ensures
            final(self).is_locked_of() == is_locked,
            final(self).agrees(old(self), true, true, false, true, true),
    ;

    fn get_unlock_date(&self) -> (r: Option<Timestamp>)
        ensures
            r == self.unlock_date_of(),
    ;

    fn set_unlock_date(&mut self, unlock_date: Option<Timestamp>)
        ensures
            final(self).unlock_date_of() == unlock_date,
            final(self).agrees(old(self), true, true, true, false, true),
    ;

    fn get_usage(&self) -> (r: u64)
        ensures
            r == self.usage_of(),
    ;

    fn set_usage(&mut self, usage: u64)
        ensures
            final(self).usage_of() == usage,
            final(self).agrees(old(self), true, true, true, true, false),
    ;
}

impl PlayiblePersonalization for PlayibleInfo {
    open spec fn athlete_id_of(&self) -> Seq<char> {
        self.athlete_id@
    }

    open spec fn rarity_code_of(&self) -> Seq<char> {
        self.rarity@
    }

    open spec fn is_locked_of(&self) -> bool {
        self.is_locked
    }

    open spec fn unlock_date_of(&self) -> Option<Timestamp> {
        self.unlock_date
    }

    open spec fn usage_of(&self) -> u64 {
        self.usage
    }

    fn get_athlete_id(&self) -> (r: String) {
        self.athlete_id.clone()
    }

    fn set_athlete_id(&mut self, athlete_id: &str) {
        self.athlete_id = String::from_str(athlete_id);
    }

    fn get_rarity(&self) -> (r: String) {
        self.rarity.clone()
    }

    fn set_rarity(&mut self, rarity: &str) {
        self.rarity = String::from_str(rarity);
    }

    fn get_is_locked(&self) -> (r: bool) {
        self.is_locked
    }

    fn set_is_locked(&mut self, is_locked: bool) {
        self.is_locked = is_locked;
    }

    fn get_unlock_date(&self) -> (r: Option<Timestamp>) {
        self.unlock_date
    }

    fn set_unlock_date(&mut self, unlock_date: Option<Timestamp>) {
        self.unlock_date = unlock_date;
    }

    fn get_usage(&self) -> (r: u64) {
        self.usage
    }

    fn set_usage(&mut self, usage: u64) {
        self.usage = usage;
    }
}

} // verus!
