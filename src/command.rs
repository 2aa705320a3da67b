use vstd::prelude::*;
use crate::config::CREATE_FEE;
use crate::error::{
    ERROR_BID_PRICE_INSUFFICIENT, ERROR_INVALID_NONCE, ERROR_NOT_LISTED,
    ERROR_NOT_SELECTED_PLAYER, ERROR_NO_BIDDER, ERROR_NUGGET_ATTRIBUTES_ALL_EXPLORED,
    ERROR_PLAYER_ALREADY_EXIST, ERROR_PLAYER_NOT_EXIST, INVALID_BIDDER, INVALID_MARKET_INDEX,
    INVALID_NUGGET_INDEX, NOT_ENOUGH_TREASURE, NUGGET_IN_USE, PLAYER_NOT_ENOUGH_BALANCE,
    PLAYER_NOT_ENOUGH_INVENTORY, SELECTED_PLAYER_NOT_EXIST,
};
use crate::market::{bid, bid_spec, list, list_spec, settle, settle_spec};
use crate::nugget::{all_explored, explored_attributes, sysprice_of, NuggetInfo};
use crate::player::credited;
use crate::state::{
    bump, credit, debit, give, pid_key, player_key, sat_sub, take, GlobalState, StateView,
    WithdrawRecord,
};

verus! {

/// Player actions on items and listings.
#[derive(Clone, Copy, Debug)]
pub enum Activity {
    Create,
    Bid(u64, u64),
    Sell(u64),
    Recycle(u64),
    Explore(u64),
    List(u64, u64),
}

/// Withdrawal: the low 32 bits of the first word are the amount; all three words go
/// to the settlement queue.
#[derive(Clone, Copy, Debug)]
pub struct Withdraw {
    pub data: [u64; 3],
}

/// Admin deposit of `data[2]` into account `[data[0], data[1]]`.
#[derive(Clone, Copy, Debug)]
pub struct Deposit {
    pub data: [u64; 3],
}

#[derive(Clone, Copy, Debug)]
pub enum Command {
    Activity(Activity),
    Withdraw(Withdraw),
    Deposit(Deposit),
    InstallPlayer,
    Tick,
}

/// A command that an account signs with its nonce.
pub trait CommandHandler {
    /// Outcome of the command sent by `pid` with `nonce` and the host's randomness.
    spec fn handle_spec(&self, s: StateView, pid: [u64; 2], nonce: u64, rand: [u64; 4]) -> (
        Result<(), u32>,
        StateView,
    );

    fn handle(&self, state: &mut GlobalState, pid: &[u64; 2], nonce: u64, rand: &[u64; 4]) -> (r:
        Result<(), u32>)
        requires
            old(state)@.total < u64::MAX,
        ensures
            (r, final(state)@) == self.handle_spec(old(state)@, *pid, nonce, *rand),
    ;
}

/// Why the nonce check of `pid` fails, if it does.
pub open spec fn nonce_error(s: StateView, pid: [u64; 2], nonce: u64) -> Option<u32> {
    let k = pid_key(pid);
    if !s.players.contains_key(k) {
        Some(ERROR_PLAYER_NOT_EXIST)
    } else if nonce != s.players[k].nonce || s.players[k].nonce == u64::MAX {
        Some(ERROR_INVALID_NONCE)
    } else {
        None
    }
}

/// State after the nonce of `pid` is used.
pub open spec fn bumped(s: StateView, pid: [u64; 2]) -> StateView {
    StateView { players: bump(s.players, pid_key(pid)), ..s }
}

/// An outcome that keeps `s` on error and takes `post` on success.
pub open spec fn outcome(e: Option<u32>, s: StateView, post: StateView) -> (Result<(), u32>, StateView) {
    match e {
        Some(e) => (Err(e), s),
        None => (Ok(()), post),
    }
}

/// The item made by a creation: fresh, and priced.
pub open spec fn created(id: u64, rand: u64) -> NuggetInfo {
    let n = NuggetInfo::fresh(id, rand);
    NuggetInfo { sysprice: sysprice_of(n.attributes@, n.feature) as u64, ..n }
}

/// An item after one more slot is revealed and its price recomputed.
pub open spec fn explored(n: NuggetInfo, rand: u64) -> NuggetInfo {
    let a = explored_attributes(n.attributes, n.feature, rand);
    NuggetInfo { attributes: a, sysprice: sysprice_of(a@, n.feature) as u64, ..n }
}

/// Why `pid` may not create an item, if it may not.
pub open spec fn create_error(s: StateView, pid: [u64; 2]) -> Option<u32> {
    let p = s.players[pid_key(pid)];
    if !s.players.contains_key(pid_key(pid)) {
        Some(ERROR_PLAYER_NOT_EXIST)
    } else if p.inventory.len() >= p.inventory_size {
        Some(PLAYER_NOT_ENOUGH_INVENTORY)
    } else if p.balance < CREATE_FEE {
        Some(PLAYER_NOT_ENOUGH_BALANCE)
    } else {
        None
    }
}

/// State after a creation: the fee is paid and the new item, with the next id, is held.
pub open spec fn create_post(s: StateView, pid: [u64; 2], rand: u64) -> StateView {
    let k = pid_key(pid);
    StateView {
        total: (s.total + 1) as u64,
        cash: sat_sub(s.cash, CREATE_FEE),
        players: give(debit(s.players, k, CREATE_FEE), k, s.total),
        nuggets: s.nuggets.insert(s.total, created(s.total, rand)),
        ..s
    }
}

/// Outcome of an item creation by `pid`.
pub open spec fn create_spec(s: StateView, pid: [u64; 2], rand: u64) -> (Result<(), u32>, StateView) {
    outcome(create_error(s, pid), s, create_post(s, pid, rand))
}

/// The id at position `index` of the inventory of `pid`.
pub open spec fn held_id(s: StateView, pid: [u64; 2], index: u64) -> u64 {
    s.players[pid_key(pid)].inventory[index as int]
}

/// Why `pid` may not explore the item at position `index`, if it may not.
pub open spec fn explore_error(s: StateView, pid: [u64; 2], index: u64) -> Option<u32> {
    let k = pid_key(pid);
    let id = held_id(s, pid, index);
    let n = s.nuggets[id];
    if !s.players.contains_key(k) {
        Some(ERROR_PLAYER_NOT_EXIST)
    } else if index >= s.players[k].inventory.len() {
        Some(INVALID_NUGGET_INDEX)
    } else if !s.nuggets.contains_key(id) {
        Some(INVALID_NUGGET_INDEX)
    } else if n.marketid != 0 {
        Some(NUGGET_IN_USE)
    } else if s.players[k].balance < n.sysprice / 4 {
        Some(PLAYER_NOT_ENOUGH_BALANCE)
    } else if all_explored(n.attributes@) {
        Some(ERROR_NUGGET_ATTRIBUTES_ALL_EXPLORED)
    } else {
        None
    }
}

/// State after an exploration: a quarter of the price is paid and one slot revealed.
pub open spec fn explore_post(s: StateView, pid: [u64; 2], index: u64, rand: u64) -> StateView {
    let id = held_id(s, pid, index);
    let n = s.nuggets[id];
    StateView {
        cash: sat_sub(s.cash, n.sysprice / 4),
        players: debit(s.players, pid_key(pid), n.sysprice / 4),
        nuggets: s.nuggets.insert(id, explored(n, rand)),
        ..s
    }
}

/// Outcome of exploring the item at position `index`.
pub open spec fn explore_spec(s: StateView, pid: [u64; 2], index: u64, rand: u64) -> (Result<(), u32>, StateView) {
    outcome(explore_error(s, pid, index), s, explore_post(s, pid, index, rand))
}

/// Why `pid` may not recycle the item at position `index`, if it may not.
pub open spec fn recycle_error(s: StateView, pid: [u64; 2], index: u64) -> Option<u32> {
    let k = pid_key(pid);
    if !s.players.contains_key(k) {
        Some(ERROR_PLAYER_NOT_EXIST)
    } else if index >= s.players[k].inventory.len() {
        Some(INVALID_NUGGET_INDEX)
    } else if !s.nuggets.contains_key(held_id(s, pid, index)) {
        Some(INVALID_NUGGET_INDEX)
    } else {
        None
    }
}

/// State after a recycling: the owner is paid the item's price and the item is retired.
pub open spec fn recycle_post(s: StateView, pid: [u64; 2], index: u64) -> StateView {
    let k = pid_key(pid);
    let id = held_id(s, pid, index);
    let n = s.nuggets[id];
    StateView {
        cash: credited(s.cash, n.sysprice),
        players: take(credit(s.players, k, n.sysprice), k, id),
        nuggets: s.nuggets.insert(id, NuggetInfo { cycle: 1, ..n }),
        ..s
    }
}

/// Outcome of recycling the item at position `index`.
pub open spec fn recycle_spec(s: StateView, pid: [u64; 2], index: u64) -> (Result<(), u32>, StateView) {
    outcome(recycle_error(s, pid, index), s, recycle_post(s, pid, index))
}

/// Listing the item at position `index` of the inventory.
pub open spec fn list_at_spec(s: StateView, pid: [u64; 2], index: u64, askprice: u64) -> (Result<(), u32>, StateView) {
    let k = pid_key(pid);
    if !s.players.contains_key(k) {
        (Err(ERROR_PLAYER_NOT_EXIST), s)
    } else if index >= s.players[k].inventory.len() {
        (Err(INVALID_NUGGET_INDEX), s)
    } else {
        list_spec(s, pid, held_id(s, pid, index), askprice)
    }
}

/// Outcome of an activity once its nonce is accepted.
pub open spec fn activity_spec(s: StateView, pid: [u64; 2], a: Activity, rand: [u64; 4]) -> (Result<(), u32>, StateView) {
    match a {
        Activity::Create => create_spec(s, pid, rand[1]),
        Activity::Explore(index) => explore_spec(s, pid, index, rand[2]),
        Activity::Recycle(index) => recycle_spec(s, pid, index),
        Activity::List(index, askprice) => list_at_spec(s, pid, index, askprice),
        Activity::Sell(mid) => settle_spec(s, pid, mid),
        Activity::Bid(mid, price) => bid_spec(s, pid, mid, price),
    }
}

/// Amount of a withdrawal: the low 32 bits of its first word.
pub open spec fn withdraw_amount(data: [u64; 3]) -> u64 {
    data[0] & 0xffffffff
}

/// Why a withdrawal by `pid` is refused once its nonce is used, if it is.
pub open spec fn withdraw_error(s: StateView, pid: [u64; 2], data: [u64; 3]) -> Option<u32> {
    if withdraw_amount(data) > s.treasure {
        Some(NOT_ENOUGH_TREASURE)
    } else if s.players[pid_key(pid)].balance < withdraw_amount(data) {
        Some(PLAYER_NOT_ENOUGH_BALANCE)
    } else {
        None
    }
}

/// State after a withdrawal: the amount leaves the account and the treasury, and a
/// record joins the settlement queue.
pub open spec fn withdraw_post(s: StateView, pid: [u64; 2], data: [u64; 3]) -> StateView {
    let amount = withdraw_amount(data);
    StateView {
        players: debit(s.players, pid_key(pid), amount),
        settlements: s.settlements.push(WithdrawRecord { data }),
        cash: sat_sub(s.cash, amount),
        treasure: (s.treasure - amount) as u64,
        ..s
    }
}

/// The account a deposit goes to.
pub open spec fn deposit_target(data: [u64; 3]) -> [u64; 2] {
    [data[0], data[1]]
}

/// State after a deposit: the account, the cash and the treasury grow by the amount.
pub open spec fn deposit_post(s: StateView, data: [u64; 3]) -> StateView {
    StateView {
        players: credit(s.players, pid_key(deposit_target(data)), data[2]),
        cash: credited(s.cash, data[2]),
        treasure: credited(s.treasure, data[2]),
        ..s
    }
}

/// Item creation for `pid`, with the next id.
pub fn create_nugget(state: &mut GlobalState, pid: &[u64; 2], rand: u64) -> (r: Result<(), u32>)
    requires
        old(state)@.total < u64::MAX,
    ensures
        (r, final(state)@) == create_spec(old(state)@, *pid, rand),
{
    let k = player_key(pid);
    let (room, balance) = match state.player(pid) {
        None => return Err(ERROR_PLAYER_NOT_EXIST),
        Some(p) => (p.data.has_room(), p.data.balance),
    };
    if !room {
        return Err(PLAYER_NOT_ENOUGH_INVENTORY);
    }
    if balance < CREATE_FEE {
        return Err(PLAYER_NOT_ENOUGH_BALANCE);
    }
    let id = state.total;
    let mut n = NuggetInfo::new(id, rand);
    n.compute_sysprice();
    state.put_nugget(id, n);
    state.total = id + 1;
    state.debit_player(k, CREATE_FEE);
    state.give_item(k, id);
    state.cash = state.cash.saturating_sub(CREATE_FEE);
    Ok(())
}

/// Reveals one more slot of the item at position `index` of the inventory of `pid`,
/// for a quarter of its price.
pub fn explore_nugget(state: &mut GlobalState, pid: &[u64; 2], index: u64, rand: u64) -> (r: Result<(), u32>)
    ensures
        (r, final(state)@) == explore_spec(old(state)@, *pid, index, rand),
{
    let k = player_key(pid);
    let (id, balance) = match state.player(pid) {
        None => return Err(ERROR_PLAYER_NOT_EXIST),
        Some(p) => {
            if index >= p.data.inventory.len() as u64 {
                return Err(INVALID_NUGGET_INDEX);
            }
            (p.data.inventory[index as usize], p.data.balance)
        },
    };
    let n = match state.nugget(id) {
        None => return Err(INVALID_NUGGET_INDEX),
        Some(n) => n,
    };
    if n.marketid != 0 {
        return Err(NUGGET_IN_USE);
    }
    let fee = n.sysprice / 4;
    if balance < fee {
        return Err(PLAYER_NOT_ENOUGH_BALANCE);
    }
    let mut m = n;
    match m.explore(rand) {
        Err(e) => return Err(e),
        Ok(()) => {},
    }
    m.compute_sysprice();
    state.debit_player(k, fee);
    state.put_nugget(id, m);
    state.cash = state.cash.saturating_sub(fee);
    Ok(())
}

/// Retires the item at position `index` of the inventory of `pid`, paying its price.
pub fn recycle_nugget(state: &mut GlobalState, pid: &[u64; 2], index: u64) -> (r: Result<(), u32>)
    ensures
        (r, final(state)@) == recycle_spec(old(state)@, *pid, index),
{
    let k = player_key(pid);
    let id = match state.player(pid) {
        None => return Err(ERROR_PLAYER_NOT_EXIST),
        Some(p) => {
            if index >= p.data.inventory.len() as u64 {
                return Err(INVALID_NUGGET_INDEX);
            }
            p.data.inventory[index as usize]
        },
    };
    let n = match state.nugget(id) {
        None => return Err(INVALID_NUGGET_INDEX),
        Some(n) => n,
    };
    state.credit_player(k, n.sysprice);
    assert(state@.players[k].inventory[index as int] == id);
    state.take_item(k, id);
    state.put_nugget(id, NuggetInfo { cycle: 1, ..n });
    state.cash = state.cash.saturating_add(n.sysprice);
    Ok(())
}

/// Lists the item at position `index` of the inventory of `pid`.
pub fn list_nugget(state: &mut GlobalState, pid: &[u64; 2], index: u64, askprice: u64) -> (r: Result<(), u32>)
    requires
        old(state)@.total < u64::MAX,
    ensures
        (r, final(state)@) == list_at_spec(old(state)@, *pid, index, askprice),
{
    let id = match state.player(pid) {
        None => return Err(ERROR_PLAYER_NOT_EXIST),
        Some(p) => {
            if index >= p.data.inventory.len() as u64 {
                return Err(INVALID_NUGGET_INDEX);
            }
            p.data.inventory[index as usize]
        },
    };
    list(state, pid, id, askprice)
}

/// Checks and uses the nonce of `pid`.
fn use_nonce(state: &mut GlobalState, pid: &[u64; 2], nonce: u64) -> (r: Result<(), u32>)
    ensures
        r matches Err(e) ==> nonce_error(old(state)@, *pid, nonce) == Some(e) && final(state)@ == old(state)@,
        r is Ok ==> nonce_error(old(state)@, *pid, nonce) is None && final(state)@ == bumped(old(state)@, *pid),
{
    match state.player(pid) {
        None => return Err(ERROR_PLAYER_NOT_EXIST),
        Some(p) => {
            if p.nonce != nonce || p.nonce == u64::MAX {
                return Err(ERROR_INVALID_NONCE);
            }
        },
    }
    state.bump_nonce(player_key(pid));
    Ok(())
}

impl CommandHandler for Activity {
    open spec fn handle_spec(&self, s: StateView, pid: [u64; 2], nonce: u64, rand: [u64; 4]) -> (
        Result<(), u32>,
        StateView,
    ) {
        match nonce_error(s, pid, nonce) {
            Some(e) => (Err(e), s),
            None => activity_spec(bumped(s, pid), pid, *self, rand),
        }
    }

    fn handle(&self, state: &mut GlobalState, pid: &[u64; 2], nonce: u64, rand: &[u64; 4]) -> (r:
        Result<(), u32>) {
        use_nonce(state, pid, nonce)?;
        match *self {
            Activity::Create => create_nugget(state, pid, rand[1]),
            Activity::Explore(index) => explore_nugget(state, pid, index, rand[2]),
            Activity::Recycle(index) => recycle_nugget(state, pid, index),
            Activity::List(index, askprice) => list_nugget(state, pid, index, askprice),
            Activity::Sell(mid) => settle(state, pid, mid),
            Activity::Bid(mid, price) => bid(state, pid, mid, price),
        }
    }
}

impl CommandHandler for Withdraw {
    open spec fn handle_spec(&self, s: StateView, pid: [u64; 2], nonce: u64, rand: [u64; 4]) -> (
        Result<(), u32>,
        StateView,
    ) {
        match nonce_error(s, pid, nonce) {
            Some(e) => (Err(e), s),
            None => {
                let s1 = bumped(s, pid);
                outcome(withdraw_error(s1, pid, self.data), s1, withdraw_post(s1, pid, self.data))
            },
        }
    }

    fn handle(&self, state: &mut GlobalState, pid: &[u64; 2], nonce: u64, rand: &[u64; 4]) -> (r:
        Result<(), u32>) {
        use_nonce(state, pid, nonce)?;
        let amount = self.data[0] & 0xffffffff;
        if amount > state.treasure {
            return Err(NOT_ENOUGH_TREASURE);
        }
        let balance = match state.player(pid) {
            None => 0,
            Some(p) => p.data.balance,
        };
        if balance < amount {
            return Err(PLAYER_NOT_ENOUGH_BALANCE);
        }
        state.debit_player(player_key(pid), amount);
        state.settlements.push(WithdrawRecord { data: self.data });
        state.cash = state.cash.saturating_sub(amount);
        state.treasure = state.treasure - amount;
        Ok(())
    }
}

impl CommandHandler for Deposit {
    open spec fn handle_spec(&self, s: StateView, pid: [u64; 2], nonce: u64, rand: [u64; 4]) -> (
        Result<(), u32>,
        StateView,
    ) {
        match nonce_error(s, pid, nonce) {
            Some(e) => (Err(e), s),
            None => {
                let s1 = bumped(s, pid);
                if !s1.players.contains_key(pid_key(deposit_target(self.data))) {
                    (Err(ERROR_PLAYER_NOT_EXIST), s1)
                } else {
                    (Ok(()), deposit_post(s1, self.data))
                }
            },
        }
    }

    fn handle(&self, state: &mut GlobalState, pid: &[u64; 2], nonce: u64, rand: &[u64; 4]) -> (r:
        Result<(), u32>) {
        use_nonce(state, pid, nonce)?;
        let target: [u64; 2] = [self.data[0], self.data[1]];
        if state.player(&target).is_none() {
            return Err(ERROR_PLAYER_NOT_EXIST);
        }
        let amount = self.data[2];
        state.credit_player(player_key(&target), amount);
        state.cash = state.cash.saturating_add(amount);
        state.treasure = state.treasure.saturating_add(amount);
        Ok(())
    }
}

/// Creating an item with a full inventory fails with the inventory error and leaves
/// the balance, the items and the id counter as they were (only the nonce moves on).
pub proof fn lemma_create_needs_room(s: StateView, pid: [u64; 2], nonce: u64, rand: [u64; 4])
    requires
        s.players.contains_key(pid_key(pid)),
        s.players[pid_key(pid)].inventory.len() == s.players[pid_key(pid)].inventory_size,
        nonce_error(s, pid, nonce) is None,
    ensures
        ({
            let (r, t) = Activity::Create.handle_spec(s, pid, nonce, rand);
            let k = pid_key(pid);
            &&& r == Err::<(), u32>(PLAYER_NOT_ENOUGH_INVENTORY)
            &&& t.total == s.total
            &&& t.players[k].balance == s.players[k].balance
            &&& t.players[k].inventory == s.players[k].inventory
            &&& t.nuggets == s.nuggets
            &&& t.cash == s.cash
        }),
{
}

/// Label of an error code, for presentation.
pub open spec fn error_label(e: u32) -> Seq<char> {
    if e == ERROR_PLAYER_NOT_EXIST {
        "PlayerNotExist"@
    } else if e == ERROR_PLAYER_ALREADY_EXIST {
        "PlayerAlreadyExist"@
    } else if e == ERROR_NOT_SELECTED_PLAYER {
        "PlayerNotSelected"@
    } else if e == SELECTED_PLAYER_NOT_EXIST {
        "SelectedPlayerNotExist"@
    } else if e == PLAYER_NOT_ENOUGH_BALANCE {
        "PlayerNotEnoughBalance"@
    } else if e == INVALID_NUGGET_INDEX {
        "SpecifiedNuggetIndexNotFound"@
    } else if e == PLAYER_NOT_ENOUGH_INVENTORY {
        "PlayerInventoryFull"@
    } else if e == ERROR_BID_PRICE_INSUFFICIENT {
        "BidPriceInsufficient"@
    } else if e == ERROR_NUGGET_ATTRIBUTES_ALL_EXPLORED {
        "NuggetAttributeAllExplored"@
    } else if e == INVALID_MARKET_INDEX {
        "InvalidMarketIndex"@
    } else if e == INVALID_BIDDER {
        "InvalidBidder"@
    } else if e == ERROR_NO_BIDDER {
        "NoBidderForThisItem"@
    } else if e == ERROR_NOT_LISTED {
        "NuggetNotListed"@
    } else {
        "Unknown"@
    }
}

/// Label of an error code; codes without one are "Unknown".
pub fn decode_error(e: u32) -> (r: &'static str)
    ensures
        r@ == error_label(e),
{
    match e {
        ERROR_PLAYER_NOT_EXIST => "PlayerNotExist",
        ERROR_PLAYER_ALREADY_EXIST => "PlayerAlreadyExist",
        ERROR_NOT_SELECTED_PLAYER => "PlayerNotSelected",
        SELECTED_PLAYER_NOT_EXIST => "SelectedPlayerNotExist",
        PLAYER_NOT_ENOUGH_BALANCE => "PlayerNotEnoughBalance",
        INVALID_NUGGET_INDEX => "SpecifiedNuggetIndexNotFound",
        PLAYER_NOT_ENOUGH_INVENTORY => "PlayerInventoryFull",
        ERROR_BID_PRICE_INSUFFICIENT => "BidPriceInsufficient",
        ERROR_NUGGET_ATTRIBUTES_ALL_EXPLORED => "NuggetAttributeAllExplored",
        INVALID_MARKET_INDEX => "InvalidMarketIndex",
        INVALID_BIDDER => "InvalidBidder",
        ERROR_NO_BIDDER => "NoBidderForThisItem",
        ERROR_NOT_LISTED => "NuggetNotListed",
        _ => "Unknown",
    }
}

} // verus!
