use nugget::command::create_nugget;
use nugget::error::{
    ERROR_BID_PRICE_INSUFFICIENT, ERROR_NO_BIDDER, ERROR_PLAYER_NOT_EXIST, INVALID_BIDDER, INVALID_MARKET_INDEX, INVALID_NUGGET_INDEX,
    NUGGET_IN_USE, PLAYER_NOT_ENOUGH_BALANCE, PLAYER_NOT_ENOUGH_INVENTORY,
};
use nugget::market::{bid, list, settle, BidInfo, MarketNugget};
use nugget::state::{player_key, GlobalState};

const OWNER: [u64; 2] = [1, 1];
const B: [u64; 2] = [2, 2];
const C: [u64; 2] = [3, 3];

fn balance(s: &GlobalState, pid: &[u64; 2]) -> u64 {
    s.player(pid).unwrap().data.balance
}

fn inventory(s: &GlobalState, pid: &[u64; 2]) -> Vec<u64> {
    s.player(pid).unwrap().data.inventory.clone()
}

/// Three accounts with 10000 each; the owner creates item 0 and lists it at 1000 as listing 1.
fn setup(delay: u64) -> GlobalState {
    let mut s = GlobalState::with_config([0, 0, 0, 0], delay);
    for pid in [OWNER, B, C] {
        s.add_player(pid);
        s.credit_player(player_key(&pid), 10_000);
    }
    assert_eq!(create_nugget(&mut s, &OWNER, 0x1234), Ok(()));
    assert_eq!(list(&mut s, &OWNER, 0, 1000), Ok(()));
    s
}

fn listing(s: &GlobalState, mid: u64) -> MarketNugget {
    s.market(mid).unwrap()
}

#[test]
fn list_moves_item_into_listing() {
    let s = setup(100);
    assert_eq!(balance(&s, &OWNER), 4500);
    assert!(inventory(&s, &OWNER).is_empty());
    assert_eq!(s.total, 2);
    let m = listing(&s, 1);
    assert_eq!(m.marketid, 1);
    assert_eq!(m.askprice, 1000);
    assert_eq!(m.settleinfo, 0);
    assert!(m.bid.is_none());
    assert_eq!(m.owner, OWNER);
    assert_eq!(m.object.id, 0);
    assert_eq!(s.nugget(0).unwrap().marketid, 1);
}

#[test]
fn list_rejects_listed_item() {
    let mut s = setup(100);
    assert_eq!(list(&mut s, &OWNER, 0, 10), Err(NUGGET_IN_USE));
    assert_eq!(s.total, 2);
}

#[test]
fn list_rejects_item_not_held() {
    let mut s = setup(100);
    assert_eq!(create_nugget(&mut s, &B, 9), Ok(()));
    assert_eq!(list(&mut s, &C, 2, 10), Err(INVALID_NUGGET_INDEX));
    assert_eq!(list(&mut s, &C, 77, 10), Err(INVALID_NUGGET_INDEX));
    assert_eq!(list(&mut s, &[9, 9], 2, 10), Err(ERROR_PLAYER_NOT_EXIST));
}

#[test]
fn list_requires_fee() {
    let mut s = GlobalState::with_config([0, 0, 0, 0], 100);
    s.add_player(B);
    s.credit_player(player_key(&B), 5_499);
    assert_eq!(create_nugget(&mut s, &B, 1), Ok(()));
    assert_eq!(list(&mut s, &B, 0, 10), Err(PLAYER_NOT_ENOUGH_BALANCE));
    assert_eq!(inventory(&s, &B), vec![0]);
    assert_eq!(s.nugget(0).unwrap().marketid, 0);
}

#[test]
fn first_bid_is_escrowed() {
    let mut s = setup(100);
    s.counter = 3;
    assert_eq!(bid(&mut s, &B, 1, 100), Ok(()));
    assert_eq!(balance(&s, &B), 9900);
    let m = listing(&s, 1);
    assert_eq!(m.settleinfo, 1 + (3 << 16));
    let b = m.bid.unwrap();
    assert_eq!(b.bidprice, 100);
    assert_eq!(b.bidder, B);
}

#[test]
fn bid_replacement_refunds_prior_bidder() {
    let mut s = setup(100);
    assert_eq!(bid(&mut s, &B, 1, 100), Ok(()));
    let before = balance(&s, &B) + balance(&s, &C) + 100;
    assert_eq!(bid(&mut s, &C, 1, 150), Ok(()));
    assert_eq!(balance(&s, &B), 10_000);
    assert_eq!(balance(&s, &C), 9_850);
    assert_eq!(balance(&s, &B) + balance(&s, &C) + 150, before);
    assert_eq!(listing(&s, 1).bid.unwrap().bidder, C);
    assert_eq!(balance(&s, &OWNER), 4500);
}

#[test]
fn rebid_by_same_bidder_uses_escrow() {
    let mut s = setup(100);
    assert_eq!(bid(&mut s, &B, 1, 100), Ok(()));
    assert_eq!(bid(&mut s, &B, 1, 300), Ok(()));
    assert_eq!(balance(&s, &B), 9_700);
}

#[test]
fn bid_not_higher_is_refused() {
    let mut s = setup(100);
    assert_eq!(bid(&mut s, &B, 1, 100), Ok(()));
    assert_eq!(bid(&mut s, &C, 1, 100), Err(ERROR_BID_PRICE_INSUFFICIENT));
    assert_eq!(bid(&mut s, &C, 1, 50), Err(ERROR_BID_PRICE_INSUFFICIENT));
    assert_eq!(balance(&s, &C), 10_000);
    assert_eq!(listing(&s, 1).bid.unwrap().bidder, B);
}

#[test]
fn bid_needs_balance() {
    let mut s = setup(100);
    assert_eq!(bid(&mut s, &OWNER, 1, 4501), Err(PLAYER_NOT_ENOUGH_BALANCE));
    assert!(listing(&s, 1).bid.is_none());
}

#[test]
fn bid_on_missing_listing() {
    let mut s = setup(100);
    assert_eq!(bid(&mut s, &B, 42, 10), Err(INVALID_NUGGET_INDEX));
}

#[test]
fn buy_now_settles_and_later_bids_fail() {
    let mut s = setup(100);
    assert_eq!(bid(&mut s, &B, 1, 100), Ok(()));
    assert_eq!(bid(&mut s, &C, 1, 1000), Ok(()));
    assert_eq!(listing(&s, 1).settleinfo, 2);
    assert_eq!(balance(&s, &B), 10_000);
    assert_eq!(balance(&s, &C), 9_000);
    assert_eq!(balance(&s, &OWNER), 5_500);
    assert_eq!(inventory(&s, &C), vec![0]);
    assert_eq!(s.nugget(0).unwrap().marketid, 0);
    assert_eq!(bid(&mut s, &B, 1, 5000), Err(INVALID_MARKET_INDEX));
    assert_eq!(settle(&mut s, &OWNER, 1), Err(INVALID_MARKET_INDEX));
    assert_eq!(balance(&s, &B), 10_000);
    assert_eq!(listing(&s, 1).bid.unwrap().bidder, C);
}

#[test]
fn buy_now_needs_inventory_room() {
    let mut s = setup(100);
    s.add_player([4, 4]);
    s.credit_player(player_key(&[4, 4]), 30_000);
    for r in 0..4 {
        assert_eq!(create_nugget(&mut s, &[4, 4], r), Ok(()));
    }
    assert_eq!(bid(&mut s, &[4, 4], 1, 1000), Err(PLAYER_NOT_ENOUGH_INVENTORY));
    assert_eq!(bid(&mut s, &[4, 4], 1, 999), Ok(()));
}

#[test]
fn owner_settles_at_any_time() {
    let mut s = setup(100);
    assert_eq!(bid(&mut s, &B, 1, 400), Ok(()));
    assert_eq!(settle(&mut s, &OWNER, 1), Ok(()));
    assert_eq!(balance(&s, &OWNER), 4_900);
    assert_eq!(balance(&s, &B), 9_600);
    assert_eq!(inventory(&s, &B), vec![0]);
    assert_eq!(listing(&s, 1).settleinfo, 2);
    assert_eq!(settle(&mut s, &OWNER, 1), Err(INVALID_MARKET_INDEX));
}

#[test]
fn settle_without_bid_fails() {
    let mut s = setup(100);
    assert_eq!(settle(&mut s, &OWNER, 1), Err(INVALID_MARKET_INDEX));
    assert_eq!(settle(&mut s, &OWNER, 7), Err(INVALID_MARKET_INDEX));
}

#[test]
fn forced_settlement_timing() {
    let mut s = setup(100);
    s.counter = 10;
    assert_eq!(bid(&mut s, &B, 1, 100), Ok(()));
    s.counter = 109;
    assert_eq!(settle(&mut s, &C, 1), Err(INVALID_MARKET_INDEX));
    s.counter = 110;
    assert_eq!(settle(&mut s, &C, 1), Err(INVALID_MARKET_INDEX));
    assert_eq!(listing(&s, 1).settleinfo, 1 + (10 << 16));
    s.counter = 111;
    assert_eq!(settle(&mut s, &C, 1), Ok(()));
    assert_eq!(inventory(&s, &B), vec![0]);
    assert_eq!(balance(&s, &OWNER), 4_600);
    assert_eq!(balance(&s, &C), 10_000);
}

#[test]
fn bid_with_unknown_prior_bidder() {
    let mut s = setup(100);
    let m = listing(&s, 1);
    s.put_market(1, MarketNugget { settleinfo: 1, bid: Some(BidInfo { bidprice: 10, bidder: [77, 77] }), ..m });
    assert_eq!(bid(&mut s, &B, 1, 20), Err(INVALID_BIDDER));
    assert_eq!(balance(&s, &B), 10_000);
}

#[test]
fn settle_with_tag_but_no_bid() {
    let mut s = setup(100);
    let m = listing(&s, 1);
    s.put_market(1, MarketNugget { settleinfo: 1, ..m });
    assert_eq!(settle(&mut s, &OWNER, 1), Err(ERROR_NO_BIDDER));
    assert_eq!(listing(&s, 1).settleinfo, 1);
}
