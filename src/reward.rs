use vstd::prelude::*;
use crate::nugget::word_byte;

verus! {

/// Drinks a player can be rewarded with.
#[derive(Clone, Copy, Debug, PartialEq, Eq, Structural)]
pub enum DrinkReward {
    Champagne,
    Cognac,
    Whiskey,
    Wine,
    Tequila,
    Vodka,
    Cocktail,
    Beer,
}

/// What SHA-256 gives for these bytes.
pub uninterp spec fn sha256_of(data: Seq<u8>) -> Seq<u8>;

/// Relies on sha2's `Sha256` through `Digest::digest`: the 32-byte SHA-256 digest of the input.
#[verifier::external_body]
fn sha256(data: &[u8]) -> (r: Vec<u8>)
    ensures
        r@ == sha256_of(data@),
        r@.len() == 32,
{
    <sha2::Sha256 as sha2::Digest>::digest(data).to_vec()
}

/// Value of each drink.
pub open spec fn reward_points(r: DrinkReward) -> u64 {
    match r {
        DrinkReward::Champagne => 100,
        DrinkReward::Cognac => 80,
        DrinkReward::Whiskey => 60,
        DrinkReward::Wine => 50,
        DrinkReward::Tequila => 40,
        DrinkReward::Vodka => 30,
        DrinkReward::Cocktail => 70,
        DrinkReward::Beer => 10,
    }
}

/// Drink drawn for a number in `0..=100`; Cocktail above that.
pub open spec fn reward_for_index(i: u64) -> DrinkReward {
    if i <= 10 {
        DrinkReward::Champagne
    } else if i <= 20 {
        DrinkReward::Cognac
    } else if i <= 40 {
        DrinkReward::Whiskey
    } else if i <= 60 {
        DrinkReward::Wine
    } else if i <= 70 {
        DrinkReward::Tequila
    } else if i <= 80 {
        DrinkReward::Vodka
    } else if i <= 100 {
        DrinkReward::Beer
    } else {
        DrinkReward::Cocktail
    }
}

/// The eight bytes of a counter, little end first.
pub open spec fn counter_bytes(c: u64) -> Seq<u8> {
    Seq::new(8, |i: int| word_byte(c, i as u64))
}

impl DrinkReward {
    pub fn reward_value(&self) -> (r: u64)
        ensures
            r == reward_points(*self),
    {
        match self {
            DrinkReward::Champagne => 100,
            DrinkReward::Cognac => 80,
            DrinkReward::Whiskey => 60,
            DrinkReward::Wine => 50,
            DrinkReward::Tequila => 40,
            DrinkReward::Vodka => 30,
            DrinkReward::Cocktail => 70,
            DrinkReward::Beer => 10,
        }
    }
}

/// The drink a digest selects: its first byte, modulo 101.
pub fn reward_for_digest(digest: &[u8]) -> (r: DrinkReward)
    requires
        digest@.len() >= 1,
    ensures
        r == reward_for_index((digest@[0] % 101) as u64),
{
    let i: u64 = (digest[0] % 101) as u64;
    if i <= 10 {
        DrinkReward::Champagne
    } else if i <= 20 {
        DrinkReward::Cognac
    } else if i <= 40 {
        DrinkReward::Whiskey
    } else if i <= 60 {
        DrinkReward::Wine
    } else if i <= 70 {
        DrinkReward::Tequila
    } else if i <= 80 {
        DrinkReward::Vodka
    } else if i <= 100 {
        DrinkReward::Beer
    } else {
        DrinkReward::Cocktail
    }
}

/// The drink drawn at `counter`: selected by the SHA-256 digest of its bytes.
pub fn select_random_drink_reward(counter: u64) -> (r: DrinkReward)
    ensures
        r == reward_for_index((sha256_of(counter_bytes(counter))[0] % 101) as u64),
{
    let mut bytes: Vec<u8> = Vec::new();
    let mut i: u64 = 0;
    while i < 8
        invariant
            0 <= i <= 8,
            bytes@ == counter_bytes(counter).subrange(0, i as int),
        decreases 8 - i,
    {
        bytes.push(((counter >> (8 * i)) & 0xff) as u8);
        i += 1;
        assert(bytes@ =~= counter_bytes(counter).subrange(0, i as int));
    }
    assert(bytes@ =~= counter_bytes(counter));
    let digest = sha256(bytes.as_slice());
    reward_for_digest(digest.as_slice())
}

} // verus!
