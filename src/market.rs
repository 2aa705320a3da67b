use vstd::prelude::*;
use crate::config::LIST_FEE;
use crate::error::{
    ERROR_BID_PRICE_INSUFFICIENT, ERROR_NO_BIDDER, ERROR_PLAYER_NOT_EXIST, INVALID_BIDDER,
    INVALID_MARKET_INDEX, INVALID_NUGGET_INDEX, NUGGET_IN_USE, PLAYER_NOT_ENOUGH_BALANCE,
    PLAYER_NOT_ENOUGH_INVENTORY,
};
use crate::nugget::{lemma_nugget_round_trip, NuggetInfo};
use crate::storage::{object_key, object_key_of};
use crate::state::{
    credit, debit, give, pid_key, player_key, sat_sub, take, GlobalState, PlayerView, StateView,
};

verus! {

/// Escrow of the highest bid on a listing.
#[derive(Clone, Copy, Debug)]
pub struct BidInfo {
    pub bidprice: u64,
    pub bidder: [u64; 2],
}

/// An auction of one item.
#[derive(Clone, Copy, Debug)]
pub struct MarketNugget {
    pub marketid: u64,
    pub askprice: u64,
    /// 0: listed without a bid; `1 + (tick << 16)`: a bid placed at `tick`; 2: settled.
    pub settleinfo: u64,
    pub bid: Option<BidInfo>,
    /// The item as it was when listed.
    pub object: NuggetInfo,
    pub owner: [u64; 2],
}

/// Key prefix of the listing namespace in the store.
pub const MARKET_PREFIX: u64 = 0x1ee2;
/// Key padding of the listing namespace in the store.
pub const MARKET_POSTFIX: u64 = 0xfee2;

/// Words of the optional escrow: a presence flag, then the bid when there is one.
pub open spec fn bid_words(b: Option<BidInfo>) -> Seq<u64> {
    match b {
        None => seq![0],
        Some(b) => seq![1, b.bidprice, b.bidder[0], b.bidder[1]],
    }
}

/// Words at `pos` hold a listing: twelve fixed words whose last is a flag of 0, or a
/// flag of 1 followed by three more.
pub open spec fn market_decodes(w: Seq<u64>, pos: int) -> bool {
    &&& 0 <= pos
    &&& pos + 12 <= w.len()
    &&& (w[pos + 11] == 0 || (w[pos + 11] == 1 && pos + 15 <= w.len()))
}

/// The listing held in the words at `pos`.
pub open spec fn decode_market_at(w: Seq<u64>, pos: int) -> MarketNugget {
    MarketNugget {
        marketid: w[pos],
        askprice: w[pos + 1],
        settleinfo: w[pos + 2],
        object: NuggetInfo::decode(w.subrange(pos + 3, pos + 9)),
        owner: [w[pos + 9], w[pos + 10]],
        bid: if w[pos + 11] == 0 {
            None
        } else {
            Some(BidInfo { bidprice: w[pos + 12], bidder: [w[pos + 13], w[pos + 14]] })
        },
    }
}

impl MarketNugget {
    /// The words that encode this listing, in field order, the escrow last.
    pub open spec fn encode(self) -> Seq<u64> {
        seq![self.marketid, self.askprice, self.settleinfo] + self.object.encode() + seq![
            self.owner[0],
            self.owner[1],
        ] + bid_words(self.bid)
    }

    /// A listing with the given fields.
    pub fn new(
        marketid: u64,
        askprice: u64,
        settleinfo: u64,
        bid: Option<BidInfo>,
        object: NuggetInfo,
        owner: [u64; 2],
    ) -> (r: Self)
        ensures
            r == (MarketNugget { marketid, askprice, settleinfo, bid, object, owner }),
    {
        MarketNugget { marketid, askprice, settleinfo, bid, object, owner }
    }

    /// Store key of listing `mid`.
    pub fn storage_key(mid: u64) -> (r: [u64; 4])
        ensures
            r == object_key(MARKET_PREFIX, MARKET_POSTFIX, mid),
    {
        object_key_of(MARKET_PREFIX, MARKET_POSTFIX, mid)
    }

    /// Appends the encoding of this listing.
    pub fn to_data(&self, data: &mut Vec<u64>)
        ensures
            final(data)@ == old(data)@ + self.encode(),
    {
        data.push(self.marketid);
        data.push(self.askprice);
        data.push(self.settleinfo);
        self.object.to_data(data);
        data.push(self.owner[0]);
        data.push(self.owner[1]);
        match self.bid {
            None => data.push(0),
            Some(b) => {
                data.push(1);
                data.push(b.bidprice);
                data.push(b.bidder[0]);
                data.push(b.bidder[1]);
            },
        }
        assert(final(data)@ =~= old(data)@ + self.encode());
    }

    /// Reads a listing from the words at `pos`; on success also gives the position after it.
    pub fn from_data(data: &Vec<u64>, pos: usize) -> (r: Option<(MarketNugget, usize)>)
        ensures
            r is Some <==> market_decodes(data@, pos as int),
            r matches Some((m, next)) ==> m == decode_market_at(data@, pos as int) && next == pos
                + 12 + (if data@[pos + 11] == 0 {
                0int
            } else {
                3
            }),
    {
        if pos > data.len() || data.len() - pos < 12 {
            return None;
        }
        let flag = data[pos + 11];
        if flag != 0 && (flag != 1 || data.len() - pos < 15) {
            return None;
        }
        let object = match NuggetInfo::from_data(data, pos + 3) {
            Some((n, _)) => n,
            None => return None,
        };
        let bid = if flag == 0 {
            None
        } else {
            Some(BidInfo { bidprice: data[pos + 12], bidder: [data[pos + 13], data[pos + 14]] })
        };
        let m = MarketNugget {
            marketid: data[pos],
            askprice: data[pos + 1],
            settleinfo: data[pos + 2],
            bid,
            object,
            owner: [data[pos + 9], data[pos + 10]],
        };
        let next = if flag == 0 {
            pos + 12
        } else {
            pos + 15
        };
        Some((m, next))
    }
}

/// The encoding of a listing decodes, and gives the listing back.
pub proof fn lemma_market_round_trip(m: MarketNugget)
    ensures
        market_decodes(m.encode(), 0),
        decode_market_at(m.encode(), 0) == m,
{
    let w = m.encode();
    assert(w.subrange(3, 9) =~= m.object.encode());
    lemma_nugget_round_trip(m.object);
    let d = decode_market_at(w, 0);
    assert(d.owner =~= m.owner);
    match m.bid {
        Some(b) => {
            assert(d.bid->0.bidder =~= b.bidder);
        },
        None => {},
    }
}

/// `settleinfo` of a listing whose bid was placed at `tick`.
pub open spec fn bid_tag(tick: u64) -> u64 {
    (1 + (tick << 16u64)) as u64
}

/// Tick at which the bid of a listing was placed.
pub open spec fn bid_tick(settleinfo: u64) -> u64 {
    settleinfo >> 16u64
}

/// Ticks since the bid of `m` was placed (zero if the clock is behind it).
pub open spec fn elapsed(s: StateView, m: MarketNugget) -> u64 {
    sat_sub(s.counter, bid_tick(m.settleinfo))
}

/// Two account ids are the same.
pub open spec fn same_pid(a: [u64; 2], b: [u64; 2]) -> bool {
    a[0] == b[0] && a[1] == b[1]
}

/// Accounts after the escrow of `m`, if any, goes back to its bidder.
pub open spec fn refunded(s: StateView, m: MarketNugget) -> Map<u128, PlayerView> {
    match m.bid {
        Some(b) => credit(s.players, pid_key(b.bidder), b.bidprice),
        None => s.players,
    }
}

/// Why a bid of `price` by `pid` on listing `mid` is refused, if it is.
pub open spec fn bid_error(s: StateView, pid: [u64; 2], mid: u64, price: u64) -> Option<u32> {
    let k = pid_key(pid);
    let m = s.markets[mid];
    let p1 = refunded(s, m);
    let buy = price >= m.askprice;
    if !s.players.contains_key(k) {
        Some(ERROR_PLAYER_NOT_EXIST)
    } else if !s.markets.contains_key(mid) {
        Some(INVALID_NUGGET_INDEX)
    } else if m.settleinfo == 2 {
        Some(INVALID_MARKET_INDEX)
    } else if m.bid is Some && price <= m.bid.unwrap().bidprice {
        Some(ERROR_BID_PRICE_INSUFFICIENT)
    } else if m.bid is Some && !s.players.contains_key(pid_key(m.bid.unwrap().bidder)) {
        Some(INVALID_BIDDER)
    } else if p1[k].balance < price {
        Some(PLAYER_NOT_ENOUGH_BALANCE)
    } else if buy && !s.players.contains_key(pid_key(m.owner)) {
        Some(ERROR_PLAYER_NOT_EXIST)
    } else if buy && !s.nuggets.contains_key(m.object.id) {
        Some(INVALID_NUGGET_INDEX)
    } else if buy && p1[k].inventory.len() >= p1[k].inventory_size {
        Some(PLAYER_NOT_ENOUGH_INVENTORY)
    } else {
        None
    }
}

/// State after an accepted bid: the old escrow is refunded, the new one debited; a bid
/// that meets the ask price settles at once, paying the owner and handing over the item.
pub open spec fn bid_post(s: StateView, pid: [u64; 2], mid: u64, price: u64) -> StateView {
    let k = pid_key(pid);
    let m = s.markets[mid];
    let p2 = debit(refunded(s, m), k, price);
    let placed = MarketNugget { bid: Some(BidInfo { bidprice: price, bidder: pid }), ..m };
    if price >= m.askprice {
        StateView {
            players: give(credit(p2, pid_key(m.owner), price), k, m.object.id),
            markets: s.markets.insert(mid, MarketNugget { settleinfo: 2, ..placed }),
            nuggets: s.nuggets.insert(m.object.id, NuggetInfo { marketid: 0, ..s.nuggets[m.object.id] }),
            ..s
        }
    } else {
        StateView {
            players: p2,
            markets: s.markets.insert(mid, MarketNugget { settleinfo: bid_tag(s.counter), ..placed }),
            ..s
        }
    }
}

/// Outcome of a bid: the error and an unchanged state, or success and the new state.
pub open spec fn bid_spec(s: StateView, pid: [u64; 2], mid: u64, price: u64) -> (Result<(), u32>, StateView) {
    match bid_error(s, pid, mid, price) {
        Some(e) => (Err(e), s),
        None => (Ok(()), bid_post(s, pid, mid, price)),
    }
}

/// Why `pid` may not settle listing `mid` now, if it may not.
pub open spec fn settle_error(s: StateView, pid: [u64; 2], mid: u64) -> Option<u32> {
    let m = s.markets[mid];
    let b = m.bid.unwrap();
    let bk = pid_key(b.bidder);
    if !s.players.contains_key(pid_key(pid)) {
        Some(ERROR_PLAYER_NOT_EXIST)
    } else if !s.markets.contains_key(mid) {
        Some(INVALID_MARKET_INDEX)
    } else if m.settleinfo == 0 || m.settleinfo == 2 {
        Some(INVALID_MARKET_INDEX)
    } else if !same_pid(pid, m.owner) && elapsed(s, m) <= s.deal_delay {
        Some(INVALID_MARKET_INDEX)
    } else if m.bid is None {
        Some(ERROR_NO_BIDDER)
    } else if !s.players.contains_key(bk) {
        Some(INVALID_BIDDER)
    } else if !s.players.contains_key(pid_key(m.owner)) {
        Some(ERROR_PLAYER_NOT_EXIST)
    } else if !s.nuggets.contains_key(m.object.id) {
        Some(INVALID_NUGGET_INDEX)
    } else if s.players[bk].inventory.len() >= s.players[bk].inventory_size {
        Some(PLAYER_NOT_ENOUGH_INVENTORY)
    } else {
        None
    }
}

/// State after a deal: the owner receives the escrow, the bidder the item, and the
/// listing is settled.
pub open spec fn settle_post(s: StateView, mid: u64) -> StateView {
    let m = s.markets[mid];
    let b = m.bid.unwrap();
    StateView {
        players: give(credit(s.players, pid_key(m.owner), b.bidprice), pid_key(b.bidder), m.object.id),
        markets: s.markets.insert(mid, MarketNugget { settleinfo: 2, ..m }),
        nuggets: s.nuggets.insert(m.object.id, NuggetInfo { marketid: 0, ..s.nuggets[m.object.id] }),
        ..s
    }
}

/// Outcome of a settlement by `pid` of listing `mid`.
pub open spec fn settle_spec(s: StateView, pid: [u64; 2], mid: u64) -> (Result<(), u32>, StateView) {
    match settle_error(s, pid, mid) {
        Some(e) => (Err(e), s),
        None => (Ok(()), settle_post(s, mid)),
    }
}

/// Why `pid` may not list item `oid`, if it may not.
pub open spec fn list_error(s: StateView, pid: [u64; 2], oid: u64) -> Option<u32> {
    let k = pid_key(pid);
    if !s.players.contains_key(k) {
        Some(ERROR_PLAYER_NOT_EXIST)
    } else if !s.nuggets.contains_key(oid) {
        Some(INVALID_NUGGET_INDEX)
    } else if s.nuggets[oid].marketid != 0 {
        Some(NUGGET_IN_USE)
    } else if !s.players[k].inventory.contains(oid) {
        Some(INVALID_NUGGET_INDEX)
    } else if s.players[k].balance < LIST_FEE {
        Some(PLAYER_NOT_ENOUGH_BALANCE)
    } else {
        None
    }
}

/// State after item `oid` is listed: it leaves the inventory, the fee is paid, and a
/// listing with the next id and no bid references it.
pub open spec fn list_post(s: StateView, pid: [u64; 2], oid: u64, askprice: u64) -> StateView {
    let k = pid_key(pid);
    let mid = s.total;
    let listed = NuggetInfo { marketid: mid, ..s.nuggets[oid] };
    StateView {
        total: (s.total + 1) as u64,
        cash: sat_sub(s.cash, LIST_FEE),
        players: debit(take(s.players, k, oid), k, LIST_FEE),
        nuggets: s.nuggets.insert(oid, listed),
        markets: s.markets.insert(
            mid,
            MarketNugget { marketid: mid, askprice, settleinfo: 0, bid: None, object: listed, owner: pid },
        ),
        ..s
    }
}

/// Outcome of listing item `oid` at `askprice`.
pub open spec fn list_spec(s: StateView, pid: [u64; 2], oid: u64, askprice: u64) -> (Result<(), u32>, StateView) {
    match list_error(s, pid, oid) {
        Some(e) => (Err(e), s),
        None => (Ok(()), list_post(s, pid, oid, askprice)),
    }
}

/// Bids `price` on listing `mid` for account `pid`, at the state's current tick.
pub fn bid(state: &mut GlobalState, pid: &[u64; 2], mid: u64, price: u64) -> (r: Result<(), u32>)
    ensures
        (r, final(state)@) == bid_spec(old(state)@, *pid, mid, price),
{
    let k = player_key(pid);
    let (balance, has_room) = match state.player(pid) {
        None => return Err(ERROR_PLAYER_NOT_EXIST),
        Some(p) => (p.data.balance, p.data.has_room()),
    };
    let m = match state.market(mid) {
        None => return Err(INVALID_NUGGET_INDEX),
        Some(m) => m,
    };
    if m.settleinfo == 2 {
        return Err(INVALID_MARKET_INDEX);
    }
    let mut available = balance;
    match m.bid {
        Some(b) => {
            if price <= b.bidprice {
                return Err(ERROR_BID_PRICE_INSUFFICIENT);
            }
            if state.player(&b.bidder).is_none() {
                return Err(INVALID_BIDDER);
            }
            if player_key(&b.bidder) == k {
                available = balance.saturating_add(b.bidprice);
            }
        },
        None => {},
    }
    if available < price {
        return Err(PLAYER_NOT_ENOUGH_BALANCE);
    }
    let buy = price >= m.askprice;
    if buy {
        if state.player(&m.owner).is_none() {
            return Err(ERROR_PLAYER_NOT_EXIST);
        }
        if state.nugget(m.object.id).is_none() {
            return Err(INVALID_NUGGET_INDEX);
        }
        if !has_room {
            return Err(PLAYER_NOT_ENOUGH_INVENTORY);
        }
    }
    let ghost s = state@;
    match m.bid {
        Some(b) => state.credit_player(player_key(&b.bidder), b.bidprice),
        None => {},
    }
    assert(state@.players == refunded(s, m));
    state.debit_player(k, price);
    let placed = MarketNugget { bid: Some(BidInfo { bidprice: price, bidder: *pid }), ..m };
    if buy {
        state.credit_player(player_key(&m.owner), price);
        state.give_item(k, m.object.id);
        state.put_market(mid, MarketNugget { settleinfo: 2, ..placed });
        match state.nugget(m.object.id) {
            Some(n) => state.put_nugget(m.object.id, NuggetInfo { marketid: 0, ..n }),
            None => {},
        }
    } else {
        let c = state.counter;
        let shifted: u64 = c << 16u64;
        assert(shifted <= 0xffff_ffff_ffff_0000u64) by (bit_vector)
            requires
                shifted == c << 16u64,
        ;
        state.put_market(mid, MarketNugget { settleinfo: 1 + shifted, ..placed });
    }
    Ok(())
}

/// Settles listing `mid` for account `pid` at the state's current tick: allowed to the
/// owner at any time, and to anyone once more than the settlement delay has passed
/// since the bid.
pub fn settle(state: &mut GlobalState, pid: &[u64; 2], mid: u64) -> (r: Result<(), u32>)
    ensures
        (r, final(state)@) == settle_spec(old(state)@, *pid, mid),
{
    if state.player(pid).is_none() {
        return Err(ERROR_PLAYER_NOT_EXIST);
    }
    let m = match state.market(mid) {
        None => return Err(INVALID_MARKET_INDEX),
        Some(m) => m,
    };
    if m.settleinfo == 0 || m.settleinfo == 2 {
        return Err(INVALID_MARKET_INDEX);
    }
    let is_owner = pid[0] == m.owner[0] && pid[1] == m.owner[1];
    let delay = state.counter.saturating_sub(m.settleinfo >> 16u64);
    if !is_owner && delay <= state.deal_delay {
        return Err(INVALID_MARKET_INDEX);
    }
    let b = match m.bid {
        None => return Err(ERROR_NO_BIDDER),
        Some(b) => b,
    };
    let bidder_room = match state.player(&b.bidder) {
        None => return Err(INVALID_BIDDER),
        Some(p) => p.data.has_room(),
    };
    if state.player(&m.owner).is_none() {
        return Err(ERROR_PLAYER_NOT_EXIST);
    }
    let n = match state.nugget(m.object.id) {
        None => return Err(INVALID_NUGGET_INDEX),
        Some(n) => n,
    };
    if !bidder_room {
        return Err(PLAYER_NOT_ENOUGH_INVENTORY);
    }
    state.credit_player(player_key(&m.owner), b.bidprice);
    state.give_item(player_key(&b.bidder), m.object.id);
    state.put_market(mid, MarketNugget { settleinfo: 2, ..m });
    state.put_nugget(m.object.id, NuggetInfo { marketid: 0, ..n });
    Ok(())
}

/// Lists item `oid` of account `pid` at `askprice`, for a fee.
pub fn list(state: &mut GlobalState, pid: &[u64; 2], oid: u64, askprice: u64) -> (r: Result<(), u32>)
    requires
        old(state)@.total < u64::MAX,
    ensures
        (r, final(state)@) == list_spec(old(state)@, *pid, oid, askprice),
{
    let k = player_key(pid);
    let (balance, held) = match state.player(pid) {
        None => return Err(ERROR_PLAYER_NOT_EXIST),
        Some(p) => (p.data.balance, p.data.find_item(oid).is_some()),
    };
    let n = match state.nugget(oid) {
        None => return Err(INVALID_NUGGET_INDEX),
        Some(n) => n,
    };
    if n.marketid != 0 {
        return Err(NUGGET_IN_USE);
    }
    if !held {
        return Err(INVALID_NUGGET_INDEX);
    }
    if balance < LIST_FEE {
        return Err(PLAYER_NOT_ENOUGH_BALANCE);
    }
    let mid = state.total;
    state.take_item(k, oid);
    state.debit_player(k, LIST_FEE);
    state.total = state.total + 1;
    state.cash = state.cash.saturating_sub(LIST_FEE);
    let listed = NuggetInfo { marketid: mid, ..n };
    state.put_nugget(oid, listed);
    state.put_market(
        mid,
        MarketNugget { marketid: mid, askprice, settleinfo: 0, bid: None, object: listed, owner: *pid },
    );
    Ok(())
}

/// Tag and tick of a bid placed at a tick that fits in the tag.
pub proof fn lemma_bid_tag(t: u64)
    requires
        t < 0x1_0000_0000_0000,
    ensures
        bid_tick(bid_tag(t)) == t,
        bid_tag(t) != 0,
        bid_tag(t) != 2,
{
    let x: u64 = t << 16u64;
    assert(x <= 0xffff_ffff_ffff_0000u64) by (bit_vector)
        requires
            x == t << 16u64,
    ;
    let y: u64 = (x + 1) as u64;
    assert(y >> 16u64 == t && y != 0 && y != 2) by (bit_vector)
        requires
            x == t << 16u64,
            t < 0x1_0000_0000_0000,
            y == x + 1,
    ;
    assert(bid_tag(t) == y);
}

/// The tag of a bid is never the settled mark.
pub proof fn lemma_bid_tag_odd(t: u64)
    ensures
        bid_tag(t) != 2,
{
    let x: u64 = t << 16u64;
    assert(x <= 0xffff_ffff_ffff_0000u64 && x & 0xffff == 0) by (bit_vector)
        requires
            x == t << 16u64,
    ;
    let y: u64 = (x + 1) as u64;
    assert(y != 2) by (bit_vector)
        requires
            x & 0xffff == 0,
            x <= 0xffff_ffff_ffff_0000u64,
            y == x + 1,
    ;
    assert(bid_tag(t) == y);
}

/// Replacing a bid refunds exactly the old escrow to its bidder and debits exactly the
/// new one from the new bidder: the balances of the two accounts plus the escrow stay
/// the same, and no other account changes.
pub proof fn lemma_escrow_conservation(s: StateView, pid: [u64; 2], mid: u64, price: u64)
    requires
        bid_spec(s, pid, mid, price).0 is Ok,
        s.markets[mid].bid is Some,
        price < s.markets[mid].askprice,
        s.players[pid_key(s.markets[mid].bid.unwrap().bidder)].balance
            + s.markets[mid].bid.unwrap().bidprice <= u64::MAX,
    ensures
        ({
            let t = bid_spec(s, pid, mid, price).1;
            let b = s.markets[mid].bid.unwrap();
            let k = pid_key(pid);
            let bk = pid_key(b.bidder);
            &&& t.markets[mid].bid == Some(BidInfo { bidprice: price, bidder: pid })
            &&& k == bk ==> t.players[k].balance + price == s.players[k].balance + b.bidprice
            &&& k != bk ==> {
                &&& t.players[bk].balance == s.players[bk].balance + b.bidprice
                &&& t.players[k].balance + price == s.players[k].balance
                &&& t.players[bk].balance + t.players[k].balance + price == s.players[bk].balance
                    + s.players[k].balance + b.bidprice
            }
            &&& t.players.dom() == s.players.dom()
            &&& forall|j: u128| j != k && j != bk && #[trigger] s.players.contains_key(j) ==> t.players[j] == s.players[j]
        }),
{
    let t = bid_spec(s, pid, mid, price).1;
    assert(t.players.dom() =~= s.players.dom());
}

/// A settled listing takes no bid and no settlement, and neither attempt changes the state.
pub proof fn lemma_settled_is_terminal(s: StateView, pid: [u64; 2], mid: u64, price: u64)
    requires
        s.markets.contains_key(mid),
        s.markets[mid].settleinfo == 2,
    ensures
        bid_spec(s, pid, mid, price).0 is Err,
        bid_spec(s, pid, mid, price).1 == s,
        settle_spec(s, pid, mid).0 is Err,
        settle_spec(s, pid, mid).1 == s,
{
}

/// A bid that meets the ask price settles its listing for good: afterwards every bid
/// and every settlement on it fails and changes nothing.
pub proof fn lemma_buy_now_is_final(
    s: StateView,
    pid: [u64; 2],
    mid: u64,
    price: u64,
    other: [u64; 2],
    next_price: u64,
)
    requires
        bid_spec(s, pid, mid, price).0 is Ok,
        price >= s.markets[mid].askprice,
    ensures
        ({
            let t = bid_spec(s, pid, mid, price).1;
            &&& t.markets[mid].settleinfo == 2
            &&& bid_spec(t, other, mid, next_price) == (Err::<(), u32>(bid_error(t, other, mid, next_price)->0), t)
            &&& settle_spec(t, other, mid) == (Err::<(), u32>(settle_error(t, other, mid)->0), t)
        }),
{
    let t = bid_spec(s, pid, mid, price).1;
    lemma_settled_is_terminal(t, other, mid, next_price);
}

/// A deal can go through: the bid, both accounts and the item exist, and the bidder
/// has room for the item.
pub open spec fn deal_ready(s: StateView, mid: u64) -> bool {
    let m = s.markets[mid];
    let bk = pid_key(m.bid.unwrap().bidder);
    &&& m.bid is Some
    &&& s.players.contains_key(bk)
    &&& s.players.contains_key(pid_key(m.owner))
    &&& s.nuggets.contains_key(m.object.id)
    &&& s.players[bk].inventory.len() < s.players[bk].inventory_size
}

/// With a bid placed at tick `t`, an account other than the owner cannot settle the
/// listing while the clock is at most `t + deal_delay`, and can once it is past that
/// (when the deal itself can go through).
pub proof fn lemma_forced_settlement_timing(s: StateView, pid: [u64; 2], mid: u64, t: u64)
    requires
        s.players.contains_key(pid_key(pid)),
        s.markets.contains_key(mid),
        s.markets[mid].settleinfo == bid_tag(t),
        t < 0x1_0000_0000_0000,
        !same_pid(pid, s.markets[mid].owner),
    ensures
        s.counter <= t + s.deal_delay ==> settle_spec(s, pid, mid) == (Err::<(), u32>(INVALID_MARKET_INDEX), s),
        s.counter > t + s.deal_delay && deal_ready(s, mid) ==> settle_spec(s, pid, mid) == (Ok::<(), u32>(()), settle_post(s, mid)),
{
    lemma_bid_tag(t);
}

} // verus!
