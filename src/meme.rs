use vstd::prelude::*;
use crate::storage::{object_key, object_key_of};

verus! {

/// Key prefix of the meme namespace in the store.
pub const MEME_PREFIX: u64 = 0x1ee1;
/// Key padding of the meme namespace in the store.
pub const MEME_POSTFIX: u64 = 0xfee1;

/// A ranked meme and the stake behind it.
#[derive(Clone, Copy, Debug, Default)]
pub struct MemeInfo {
    pub id: u64,
    pub rank: u64,
    pub stake: u64,
    pub owner: [u64; 2],
}

/// An account's stake and when it last collected its rewards.
#[derive(Clone, Copy, Debug, Default)]
pub struct StakeInfo {
    pub stake: u64,
    pub timestamp: u64,
}

impl MemeInfo {
    /// The words of this meme, in field order.
    pub open spec fn encode(self) -> Seq<u64> {
        seq![self.id, self.rank, self.stake, self.owner[0], self.owner[1]]
    }

    /// Store key of meme `id`.
    pub fn storage_key(id: u64) -> (r: [u64; 4])
        ensures
            r == object_key(MEME_PREFIX, MEME_POSTFIX, id),
    {
        object_key_of(MEME_PREFIX, MEME_POSTFIX, id)
    }

    /// Appends the encoding of this meme.
    pub fn to_data(&self, data: &mut Vec<u64>)
        ensures
            final(data)@ == old(data)@ + self.encode(),
    {
        data.push(self.id);
        data.push(self.rank);
        data.push(self.stake);
        data.push(self.owner[0]);
        data.push(self.owner[1]);
        assert(final(data)@ =~= old(data)@ + self.encode());
    }

    /// Reads a meme from the five words at `pos`; `None` when fewer remain.
    pub fn from_data(data: &Vec<u64>, pos: usize) -> (r: Option<(MemeInfo, usize)>)
        ensures
            r is Some <==> pos + 5 <= data@.len(),
            r matches Some((m, next)) ==> next == pos + 5 && m.encode() == data@.subrange(
                pos as int,
                next as int,
            ),
    {
        if pos > data.len() || data.len() - pos < 5 {
            return None;
        }
        let m = MemeInfo {
            id: data[pos],
            rank: data[pos + 1],
            stake: data[pos + 2],
            owner: [data[pos + 3], data[pos + 4]],
        };
        assert(m.encode() =~= data@.subrange(pos as int, pos + 5));
        Some((m, pos + 5))
    }
}

impl StakeInfo {
    /// The words of this stake, in field order.
    pub open spec fn encode(self) -> Seq<u64> {
        seq![self.stake, self.timestamp]
    }

    /// Appends the encoding of this stake.
    pub fn to_data(&self, data: &mut Vec<u64>)
        ensures
            final(data)@ == old(data)@ + self.encode(),
    {
        data.push(self.stake);
        data.push(self.timestamp);
        assert(final(data)@ =~= old(data)@ + self.encode());
    }

    /// Reads a stake from the two words at `pos`; `None` when fewer remain.
    pub fn from_data(data: &Vec<u64>, pos: usize) -> (r: Option<(StakeInfo, usize)>)
        ensures
            r is Some <==> pos + 2 <= data@.len(),
            r matches Some((s, next)) ==> next == pos + 2 && s.encode() == data@.subrange(
                pos as int,
                next as int,
            ),
    {
        if pos > data.len() || data.len() - pos < 2 {
            return None;
        }
        let s = StakeInfo { stake: data[pos], timestamp: data[pos + 1] };
        assert(s.encode() =~= data@.subrange(pos as int, pos + 2));
        Some((s, pos + 2))
    }
}

} // verus!
