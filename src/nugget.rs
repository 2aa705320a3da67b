use vstd::prelude::*;
use crate::error::ERROR_NUGGET_ATTRIBUTES_ALL_EXPLORED;
use crate::storage::{object_key, object_key_of};

verus! {

/// Key prefix of the item namespace in the store.
pub const NUGGET_PREFIX: u64 = 0x1ee1;
/// Key padding of the item namespace in the store.
pub const NUGGET_POSTFIX: u64 = 0xfee1;
/// Number of machine words an item occupies in its encoding.
pub const NUGGET_WORDS: usize = 6;
/// Largest number of items a leaderboard keeps.
pub const LEADERBOARD_SIZE: usize = 8;

/// Reward table used when a slot of the multiplicative zone is revealed:
/// low values are likely, high values rare.
pub const EXPLORE_WEIGHT: [u8; 64] = [
    2, 2, 1, 1, 0, 0, 0, 0,
    2, 2, 2, 1, 1, 0, 0, 0,
    3, 2, 2, 2, 1, 1, 1, 0,
    4, 3, 2, 2, 2, 1, 1, 1,
    4, 4, 3, 3, 2, 2, 1, 1,
    5, 5, 4, 3, 3, 3, 2, 1,
    7, 6, 5, 4, 3, 3, 3, 2,
    9, 8, 6, 5, 4, 4, 3, 3,
];

/// A generated collectible. `attributes[i] == 0` means slot `i` is not revealed yet.
#[derive(Clone, Copy, Debug, Default)]
pub struct NuggetInfo {
    pub id: u64,
    pub attributes: [u8; 8],
    pub cycle: u64,
    pub feature: u64,
    pub sysprice: u64,
    /// The listing that currently references this item, or zero.
    pub marketid: u64,
}

/// Floor of the base-two logarithm (0 for 0 and 1).
pub open spec fn log2_floor(v: nat) -> nat
    decreases v,
{
    if v <= 1 {
        0
    } else {
        1 + log2_floor(v / 2)
    }
}

/// Value of the first attribute of an item made from `rand`: the xor of its two
/// lowest bytes, halved, plus one.
pub open spec fn first_attribute(rand: u64) -> u8 {
    ((((rand & 0xff) ^ ((rand >> 8u64) & 0xff)) / 2) + 1) as u8
}

/// Split point between the additive and the multiplicative zone of an item made from `rand`.
pub open spec fn feature_of(rand: u64) -> u64 {
    log2_floor((rand % 64 + 1) as nat) as u64
}

/// What a slot contributes to the price: 2 while hidden, else `(value - 1) mod 10`.
pub open spec fn slot_value(c: u8) -> int {
    if c == 0 {
        2
    } else {
        (c - 1) % 10
    }
}

/// Price after the first `n` slots: slot 0 is the base, slots up to `feature`
/// add, the later ones multiply.
pub open spec fn price_prefix(a: Seq<u8>, feature: u64, n: int) -> int
    decreases n,
{
    if n <= 1 {
        a[0] as int
    } else {
        let p = price_prefix(a, feature, n - 1);
        if n - 1 <= feature {
            p + slot_value(a[n - 1])
        } else {
            p * slot_value(a[n - 1])
        }
    }
}

/// The system valuation of an item with these attributes and split point.
pub open spec fn sysprice_of(a: Seq<u8>, feature: u64) -> int {
    price_prefix(a, feature, 8)
}

/// Value written into slot `slot` when it is revealed with `rand`.
pub open spec fn explore_value(slot: int, feature: u64, rand: u64) -> u8 {
    if slot <= feature {
        ((rand % 64) + 1) as u8
    } else {
        (EXPLORE_WEIGHT[(rand % 64) as int] + 1) as u8
    }
}

/// Every attribute slot is revealed.
pub open spec fn all_explored(a: Seq<u8>) -> bool {
    forall|i: int| 0 <= i < 8 ==> a[i] != 0
}

/// `k` is the lowest hidden slot.
pub open spec fn is_first_hidden(a: Seq<u8>, k: int) -> bool {
    &&& 0 <= k < 8
    &&& a[k] == 0
    &&& forall|j: int| 0 <= j < k ==> a[j] != 0
}

/// The lowest hidden slot.
pub open spec fn first_hidden(a: Seq<u8>) -> int {
    choose|k: int| is_first_hidden(a, k)
}

/// Attributes after the lowest hidden slot is revealed with `rand`.
pub open spec fn explored_attributes(a: [u8; 8], feature: u64, rand: u64) -> [u8; 8] {
    let k = first_hidden(a@);
    vstd::array::spec_array_update(a, k, explore_value(k, feature, rand))
}

/// The valuation depends on the attributes and the split point alone: two items that
/// agree on them are priced the same.
pub proof fn lemma_price_determined(a: NuggetInfo, b: NuggetInfo)
    requires
        a.attributes == b.attributes,
        a.feature == b.feature,
    ensures
        sysprice_of(a.attributes@, a.feature) == sysprice_of(b.attributes@, b.feature),
{
}

/// Unpacking a packed attribute word gives back the eight bytes.
pub proof fn lemma_attribute_word_round_trip(a: [u8; 8])
    ensures
        word_attributes(attribute_word(a)) == a,
{
    let x0 = a[0] as u64;
    let x1 = a[1] as u64;
    let x2 = a[2] as u64;
    let x3 = a[3] as u64;
    let x4 = a[4] as u64;
    let x5 = a[5] as u64;
    let x6 = a[6] as u64;
    let x7 = a[7] as u64;
    let w = attribute_word(a);
    assert({
        &&& w & 0xff == x0
        &&& (w >> 8u64) & 0xff == x1
        &&& (w >> 16u64) & 0xff == x2
        &&& (w >> 24u64) & 0xff == x3
        &&& (w >> 32u64) & 0xff == x4
        &&& (w >> 40u64) & 0xff == x5
        &&& (w >> 48u64) & 0xff == x6
        &&& (w >> 56u64) & 0xff == x7
    }) by (bit_vector)
        requires
            x0 < 256 && x1 < 256 && x2 < 256 && x3 < 256 && x4 < 256 && x5 < 256 && x6 < 256 && x7
                < 256,
            w == x0 | (x1 << 8u64) | (x2 << 16u64) | (x3 << 24u64) | (x4 << 32u64) | (x5 << 40u64) | (
            x6 << 48u64) | (x7 << 56u64),
    ;
    assert(w & 0xff == (w >> 0u64) & 0xff) by (bit_vector);
    assert(word_attributes(w) =~= a);
}

/// Decoding the encoding of an item gives the item back.
pub proof fn lemma_nugget_round_trip(n: NuggetInfo)
    ensures
        NuggetInfo::decode(n.encode()) == n,
{
    lemma_attribute_word_round_trip(n.attributes);
}

spec fn price_bound(n: int) -> int
    decreases n,
{
    if n <= 1 {
        255
    } else {
        9 * price_bound(n - 1) + 9
    }
}

proof fn lemma_price_bound(n: int)
    requires
        1 <= n <= 8,
    ensures
        0 <= price_bound(n) <= 1225037934,
    decreases n,
{
    reveal_with_fuel(price_bound, 8);
    if n > 1 {
        lemma_price_bound(n - 1);
        assert(price_bound(7) == 136115325);
    }
}

proof fn lemma_price_step(a: Seq<u8>, feature: u64, n: int)
    requires
        2 <= n <= 8,
        0 <= price_prefix(a, feature, n - 1) <= price_bound(n - 1),
        price_bound(n - 1) >= 0,
    ensures
        0 <= price_prefix(a, feature, n) <= price_bound(n),
{
    let p = price_prefix(a, feature, n - 1);
    let s = slot_value(a[n - 1]);
    assert(0 <= s <= 9);
    if n - 1 > feature {
        assert(0 <= p * s <= 9 * p) by (nonlinear_arith)
            requires
                0 <= s <= 9,
                0 <= p,
        ;
    }
}

proof fn lemma_log2_floor_small(v: nat)
    requires
        1 <= v,
    ensures
        log2_floor(v) < v,
        v < 128 ==> log2_floor(v) <= 6,
        v < 64 ==> log2_floor(v) <= 5,
        v < 32 ==> log2_floor(v) <= 4,
        v < 16 ==> log2_floor(v) <= 3,
        v < 8 ==> log2_floor(v) <= 2,
        v < 4 ==> log2_floor(v) <= 1,
    decreases v,
{
    if v > 1 {
        lemma_log2_floor_small(v / 2);
    }
}

/// The eight attribute bytes packed into one word, little end first.
pub open spec fn attribute_word(a: [u8; 8]) -> u64 {
    (a[0] as u64) | ((a[1] as u64) << 8u64) | ((a[2] as u64) << 16u64) | ((a[3] as u64) << 24u64)
        | ((a[4] as u64) << 32u64) | ((a[5] as u64) << 40u64) | ((a[6] as u64) << 48u64) | ((a[7]
        as u64) << 56u64)
}

/// Byte `i` of a word, little end first.
pub open spec fn word_byte(w: u64, i: u64) -> u8 {
    ((w >> (8 * i) as u64) & 0xff) as u8
}

/// The attribute bytes held in a packed word.
pub open spec fn word_attributes(w: u64) -> [u8; 8] {
    [
        word_byte(w, 0),
        word_byte(w, 1),
        word_byte(w, 2),
        word_byte(w, 3),
        word_byte(w, 4),
        word_byte(w, 5),
        word_byte(w, 6),
        word_byte(w, 7),
    ]
}

/// Keeps a leaderboard at its size: one entry over it drops the last one.
pub open spec fn capped(s: Seq<NuggetInfo>) -> Seq<NuggetInfo> {
    if s.len() > LEADERBOARD_SIZE {
        s.drop_last()
    } else {
        s
    }
}

/// `pos` is the first entry priced below `price`.
pub open spec fn is_first_below(s: Seq<NuggetInfo>, price: u64, pos: int) -> bool {
    &&& 0 <= pos < s.len()
    &&& s[pos].sysprice < price
    &&& forall|j: int| 0 <= j < pos ==> s[j].sysprice >= price
}

/// Items ordered by price, highest first.
pub struct Leaderboard {
    pub nuggets: Vec<NuggetInfo>,
}

impl Leaderboard {
    /// An empty leaderboard.
    pub fn new() -> (r: Self)
        ensures
            r.nuggets@.len() == 0,
    {
        Leaderboard { nuggets: Vec::new() }
    }

    /// Puts `nugget` before the first entry priced below it, dropping the last entry
    /// if the board grows past its size; a board with no cheaper entry is left as it is.
    pub fn update_board(&mut self, nugget: &NuggetInfo)
        ensures
            (forall|j: int| 0 <= j < old(self).nuggets@.len() ==> old(self).nuggets@[j].sysprice
                >= nugget.sysprice) ==> final(self).nuggets@ == old(self).nuggets@,
            (exists|pos: int| is_first_below(old(self).nuggets@, nugget.sysprice, pos))
                ==> exists|pos: int|
                is_first_below(old(self).nuggets@, nugget.sysprice, pos) && final(self).nuggets@
                    == capped(old(self).nuggets@.insert(pos, *nugget)),
    {
        let n = self.nuggets.len();
        let mut i: usize = 0;
        while i < n
            invariant
                0 <= i <= n,
                n == self.nuggets@.len(),
                self.nuggets@ == old(self).nuggets@,
                forall|j: int| 0 <= j < i ==> self.nuggets@[j].sysprice >= nugget.sysprice,
            decreases n - i,
        {
            if self.nuggets[i].sysprice < nugget.sysprice {
                assert(is_first_below(old(self).nuggets@, nugget.sysprice, i as int));
                self.nuggets.insert(i, *nugget);
                if self.nuggets.len() > LEADERBOARD_SIZE {
                    self.nuggets.pop();
                }
                return;
            }
            i += 1;
        }
        proof {
            assert forall|pos: int| !is_first_below(old(self).nuggets@, nugget.sysprice, pos) by {
                if 0 <= pos < n {
                    assert(self.nuggets@[pos].sysprice >= nugget.sysprice);
                }
            }
        }
    }
}

impl NuggetInfo {
    /// The words that encode this item, in field order.
    pub open spec fn encode(self) -> Seq<u64> {
        seq![
            self.id,
            attribute_word(self.attributes),
            self.cycle,
            self.feature,
            self.sysprice,
            self.marketid,
        ]
    }

    /// The item that six words encode.
    pub open spec fn decode(w: Seq<u64>) -> NuggetInfo {
        NuggetInfo {
            id: w[0],
            attributes: word_attributes(w[1]),
            cycle: w[2],
            feature: w[3],
            sysprice: w[4],
            marketid: w[5],
        }
    }

    /// Store key of item `id`.
    pub fn storage_key(id: u64) -> (r: [u64; 4])
        ensures
            r == object_key(NUGGET_PREFIX, NUGGET_POSTFIX, id),
    {
        object_key_of(NUGGET_PREFIX, NUGGET_POSTFIX, id)
    }

    /// Appends the encoding of this item.
    pub fn to_data(&self, data: &mut Vec<u64>)
        ensures
            final(data)@ == old(data)@ + self.encode(),
    {
        let a = self.attributes;
        let w: u64 = (a[0] as u64) | ((a[1] as u64) << 8u64) | ((a[2] as u64) << 16u64) | ((
        a[3] as u64) << 24u64) | ((a[4] as u64) << 32u64) | ((a[5] as u64) << 40u64) | ((a[6]
            as u64) << 48u64) | ((a[7] as u64) << 56u64);
        data.push(self.id);
        data.push(w);
        data.push(self.cycle);
        data.push(self.feature);
        data.push(self.sysprice);
        data.push(self.marketid);
        assert(final(data)@ =~= old(data)@ + self.encode());
    }

    /// Reads an item from the words at `pos`; `None` when fewer than six remain.
    /// On success also gives the position after them.
    pub fn from_data(data: &Vec<u64>, pos: usize) -> (r: Option<(NuggetInfo, usize)>)
        ensures
            r is Some <==> pos + NUGGET_WORDS <= data@.len(),
            r matches Some((n, next)) ==> next == pos + NUGGET_WORDS && n == NuggetInfo::decode(
                data@.subrange(pos as int, next as int),
            ),
    {
        if pos > data.len() || data.len() - pos < NUGGET_WORDS {
            return None;
        }
        let w = data[pos + 1];
        let attributes: [u8; 8] = [
            (w & 0xff) as u8,
            ((w >> 8u64) & 0xff) as u8,
            ((w >> 16u64) & 0xff) as u8,
            ((w >> 24u64) & 0xff) as u8,
            ((w >> 32u64) & 0xff) as u8,
            ((w >> 40u64) & 0xff) as u8,
            ((w >> 48u64) & 0xff) as u8,
            ((w >> 56u64) & 0xff) as u8,
        ];
        let n = NuggetInfo {
            id: data[pos],
            attributes,
            cycle: data[pos + 2],
            feature: data[pos + 3],
            sysprice: data[pos + 4],
            marketid: data[pos + 5],
        };
        assert(w & 0xff == (w >> 0u64) & 0xff) by (bit_vector);
        assert(attributes =~= word_attributes(w));
        Some((n, pos + NUGGET_WORDS))
    }

    /// An item whose attributes are all hidden but the first.
    pub open spec fn fresh(id: u64, rand: u64) -> NuggetInfo {
        NuggetInfo {
            id,
            attributes: [first_attribute(rand), 0, 0, 0, 0, 0, 0, 0],
            cycle: 0,
            feature: feature_of(rand),
            sysprice: 0,
            marketid: 0,
        }
    }

    /// Builds item `id` from the host's randomness.
    pub fn new(id: u64, rand: u64) -> (r: Self)
        ensures
            r == Self::fresh(id, rand),
            r.feature < 8,
    {
        let b0: u64 = rand & 0xff;
        let b1: u64 = (rand >> 8u64) & 0xff;
        assert(b0 ^ b1 <= 0xff) by (bit_vector)
            requires
                b0 == rand & 0xff,
                b1 == (rand >> 8u64) & 0xff,
        ;
        let first: u8 = ((b0 ^ b1) / 2 + 1) as u8;
        let v0: u64 = rand % 64 + 1;
        let mut v: u64 = v0;
        let mut k: u64 = 0;
        proof {
            lemma_log2_floor_small(v0 as nat);
        }
        while v > 1
            invariant
                1 <= v <= v0 <= 64,
                k + log2_floor(v as nat) == log2_floor(v0 as nat),
                log2_floor(v0 as nat) < v0,
            decreases v,
        {
            v = v / 2;
            k = k + 1;
        }
        NuggetInfo {
            id,
            cycle: 0,
            attributes: [first, 0, 0, 0, 0, 0, 0, 0],
            feature: k,
            sysprice: 0,
            marketid: 0,
        }
    }

    /// Reveals the lowest hidden slot with a value drawn from `rand`.
    pub fn explore(&mut self, rand: u64) -> (r: Result<(), u32>)
        ensures
            r is Err <==> all_explored(old(self).attributes@),
            r matches Err(e) ==> e == ERROR_NUGGET_ATTRIBUTES_ALL_EXPLORED && *final(self) == *old(self),
            r is Ok ==> final(self).attributes == explored_attributes(
                old(self).attributes,
                old(self).feature,
                rand,
            ),
            final(self).id == old(self).id,
            final(self).cycle == old(self).cycle,
            final(self).feature == old(self).feature,
            final(self).sysprice == old(self).sysprice,
            final(self).marketid == old(self).marketid,
    {
        let mut i: usize = 0;
        while i < 8
            invariant
                0 <= i <= 8,
                *self == *old(self),
                forall|j: int| 0 <= j < i ==> self.attributes[j] != 0,
            decreases 8 - i,
        {
            if self.attributes[i] == 0 {
                let slot: u8 = if (i as u64) <= self.feature {
                    ((rand % 64) as u8) + 1
                } else {
                    EXPLORE_WEIGHT[(rand % 64) as usize] + 1
                };
                self.attributes[i] = slot;
                assert(is_first_hidden(old(self).attributes@, i as int));
                assert(first_hidden(old(self).attributes@) == i);
                assert(self.attributes =~= explored_attributes(old(self).attributes, old(self).feature, rand));
                return Ok(());
            }
            i += 1;
        }
        Err(ERROR_NUGGET_ATTRIBUTES_ALL_EXPLORED)
    }

    /// Recomputes `sysprice` from the attributes.
    pub fn compute_sysprice(&mut self)
        ensures
            final(self).sysprice == sysprice_of(old(self).attributes@, old(self).feature),
            final(self).id == old(self).id,
            final(self).attributes == old(self).attributes,
            final(self).cycle == old(self).cycle,
            final(self).feature == old(self).feature,
            final(self).marketid == old(self).marketid,
    {
        let a = self.attributes;
        let feature = self.feature;
        let mut p: u64 = a[0] as u64;
        let mut i: usize = 1;
        proof {
            reveal_with_fuel(price_bound, 2);
        }
        while i < 8
            invariant
                1 <= i <= 8,
                p == price_prefix(a@, feature, i as int),
                p <= price_bound(i as int),
            decreases 8 - i,
        {
            proof {
                lemma_price_bound(i as int);
                lemma_price_step(a@, feature, i as int + 1);
                lemma_price_bound(i as int + 1);
            }
            let c = a[i];
            let s: u64 = if c == 0 {
                2
            } else {
                ((c - 1) % 10) as u64
            };
            if (i as u64) <= feature {
                p = p + s;
            } else {
                p = p * s;
            }
            i += 1;
        }
        self.sysprice = p;
    }
}

} // verus!
