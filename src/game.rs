use vstd::prelude::*;

verus! {

/// A two-word commitment to a card's contents.
#[derive(Clone, Copy, Debug)]
pub struct CommitmentInfo(pub [u64; 2]);

/// A committed card and, once revealed, its contents.
pub struct Content {
    pub commitment: CommitmentInfo,
    pub content: Option<Vec<u8>>,
}

/// A game and its cards.
pub struct Game {
    pub game_id: u64,
    pub contents: Vec<Content>,
}

impl CommitmentInfo {
    /// The commitment made of two words.
    pub fn new(c0: u64, c1: u64) -> (r: Self)
        ensures
            r.0 == [c0, c1],
    {
        CommitmentInfo([c0, c1])
    }
}

} // verus!
