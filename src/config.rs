use vstd::prelude::*;

verus! {

/// Ticks (five seconds each, so one day) after a bid when anyone may settle the listing.
pub const MARKET_DEAL_DELAY: u64 = 17280;
/// Event tag of an item change.
pub const NUGGET_INFO: u64 = 1;
/// Event tag of a listing change.
pub const MARKET_INFO: u64 = 2;
/// Fee for creating an item.
pub const CREATE_FEE: u64 = 5000;
/// Fee for listing an item.
pub const LIST_FEE: u64 = 500;

/// What serde_json writes for a list of integers.
pub uninterp spec fn json_u64_list(v: Seq<u64>) -> Seq<char>;

/// Relies on `serde_json::to_string` on a `Vec<u64>`: the compact JSON array of the
/// numbers, which is `[]` for an empty list. Serializing integers does not fail.
#[verifier::external_body]
fn json_of_u64s(v: &Vec<u64>) -> (r: String)
    ensures
        r@ == json_u64_list(v@),
        v@.len() == 0 ==> r@ == "[]"@,
{
    serde_json::to_string(v).unwrap_or_default()
}

/// Names the game presents to its host.
pub struct Config {
    pub actions: [&'static str; 1],
    pub name: [&'static str; 1],
}

impl Config {
    /// The game's presentation settings.
    pub fn new() -> (r: Self)
        ensures
            r.actions@[0]@ == "nugget"@,
            r.name@[0]@ == "nugget"@,
    {
        Config { actions: ["nugget"], name: ["nugget"] }
    }

    /// The list of memes the game publishes, as JSON: it publishes none.
    pub fn to_json_string() -> (r: String)
        ensures
            r@ == json_u64_list(Seq::empty()),
            r@ == "[]"@,
    {
        let meme_list: Vec<u64> = Vec::new();
        json_of_u64s(&meme_list)
    }

    /// Whether the host should send timer ticks by itself: it should not.
    pub fn autotick() -> (r: bool)
        ensures
            !r,
    {
        false
    }
}

} // verus!
