use nugget::error::ERROR_NUGGET_ATTRIBUTES_ALL_EXPLORED;
use nugget::nugget::{Leaderboard, NuggetInfo, EXPLORE_WEIGHT};

fn priced(attributes: [u8; 8], feature: u64) -> u64 {
    let mut n = NuggetInfo::new(0, 0);
    n.attributes = attributes;
    n.feature = feature;
    n.compute_sysprice();
    n.sysprice
}

#[test]
fn new_nugget_from_randomness() {
    let n = NuggetInfo::new(7, 0x1234);
    assert_eq!(n.id, 7);
    assert_eq!(n.attributes, [20, 0, 0, 0, 0, 0, 0, 0]);
    assert_eq!(n.feature, 5);
    assert_eq!(n.cycle, 0);
    assert_eq!(n.sysprice, 0);
    assert_eq!(n.marketid, 0);
}

#[test]
fn new_nugget_feature_stays_below_eight() {
    for rand in 0..200u64 {
        let n = NuggetInfo::new(0, rand * 7919);
        assert!(n.feature < 8);
        assert!(n.attributes[0] >= 1);
    }
    assert_eq!(NuggetInfo::new(0, 63).feature, 6);
    assert_eq!(NuggetInfo::new(0, 0).feature, 0);
}

#[test]
fn sysprice_of_fresh_nugget() {
    let mut n = NuggetInfo::new(1, 0x1234);
    n.compute_sysprice();
    assert_eq!(n.sysprice, 120);
}

#[test]
fn sysprice_example_is_fixed() {
    let mut n = NuggetInfo::new(1, 5);
    assert_eq!(n.attributes, [3, 0, 0, 0, 0, 0, 0, 0]);
    assert_eq!(n.feature, 2);
    n.compute_sysprice();
    assert_eq!(n.sysprice, 224);
    assert_eq!(priced([3, 0, 0, 0, 0, 0, 0, 0], 2), 224);
}

#[test]
fn sysprice_is_deterministic() {
    let a = priced([5, 3, 0, 12, 0, 7, 2, 0], 3);
    let b = priced([5, 3, 0, 12, 0, 7, 2, 0], 3);
    assert_eq!(a, b);
    // 5 + 2 + 2 + 1 = 10, then * 2 * 6 * 1 * 2
    assert_eq!(a, 240);
}

#[test]
fn sysprice_revealed_slots_count_modulo_ten() {
    // additive: 1 + (64 - 1) % 10 = 4; multiplicative slots all hidden: * 2^6
    assert_eq!(priced([1, 64, 0, 0, 0, 0, 0, 0], 1), 4 * 64);
    // a revealed 1 in the multiplicative zone zeroes the price
    assert_eq!(priced([9, 0, 1, 0, 0, 0, 0, 0], 1), 0);
}

#[test]
fn explore_reveals_additive_slot() {
    let mut n = NuggetInfo::new(1, 0x1234);
    assert_eq!(n.explore(70), Ok(()));
    assert_eq!(n.attributes, [20, 7, 0, 0, 0, 0, 0, 0]);
    n.compute_sysprice();
    assert_eq!(n.sysprice, 136);
}

#[test]
fn explore_reveals_multiplicative_slot_from_table() {
    let mut n = NuggetInfo::new(1, 0x0300);
    assert_eq!(n.attributes, [2, 0, 0, 0, 0, 0, 0, 0]);
    assert_eq!(n.feature, 0);
    assert_eq!(n.explore(63), Ok(()));
    assert_eq!(n.attributes[1], EXPLORE_WEIGHT[63] + 1);
    assert_eq!(n.attributes[1], 4);
    n.compute_sysprice();
    assert_eq!(n.sysprice, 384);
}

#[test]
fn explore_fills_lowest_hidden_slot() {
    let mut n = NuggetInfo::new(1, 0);
    n.attributes = [1, 2, 0, 5, 0, 0, 0, 0];
    n.feature = 7;
    assert_eq!(n.explore(3), Ok(()));
    assert_eq!(n.attributes, [1, 2, 4, 5, 0, 0, 0, 0]);
}

#[test]
fn explore_fails_when_all_revealed() {
    let mut n = NuggetInfo::new(3, 0);
    n.attributes = [1, 2, 3, 4, 5, 6, 7, 8];
    n.sysprice = 42;
    for rand in [0u64, 1, 63, 1000] {
        assert_eq!(n.explore(rand), Err(ERROR_NUGGET_ATTRIBUTES_ALL_EXPLORED));
        assert_eq!(n.attributes, [1, 2, 3, 4, 5, 6, 7, 8]);
        assert_eq!(n.sysprice, 42);
        assert_eq!(n.id, 3);
    }
}

#[test]
fn explore_eight_times_then_exhausted() {
    let mut n = NuggetInfo::new(3, 0x1234);
    for _ in 0..7 {
        assert_eq!(n.explore(11), Ok(()));
    }
    assert!(n.attributes.iter().all(|a| *a != 0));
    assert_eq!(n.explore(11), Err(ERROR_NUGGET_ATTRIBUTES_ALL_EXPLORED));
}

fn with_price(id: u64, sysprice: u64) -> NuggetInfo {
    let mut n = NuggetInfo::new(id, 0);
    n.sysprice = sysprice;
    n
}

#[test]
fn leaderboard_empty_stays_empty() {
    let mut board = Leaderboard::new();
    board.update_board(&with_price(1, 100));
    assert!(board.nuggets.is_empty());
}

#[test]
fn leaderboard_inserts_before_first_cheaper() {
    let mut board = Leaderboard { nuggets: vec![with_price(1, 50), with_price(2, 30), with_price(3, 10)] };
    board.update_board(&with_price(4, 40));
    let ids: Vec<u64> = board.nuggets.iter().map(|n| n.id).collect();
    assert_eq!(ids, vec![1, 4, 2, 3]);
    board.update_board(&with_price(5, 5));
    assert_eq!(board.nuggets.len(), 4);
}

#[test]
fn leaderboard_keeps_eight() {
    let mut board = Leaderboard { nuggets: (0..8).map(|i| with_price(i, 100 - i)).collect() };
    board.update_board(&with_price(99, 1000));
    assert_eq!(board.nuggets.len(), 8);
    assert_eq!(board.nuggets[0].id, 99);
    assert_eq!(board.nuggets[7].id, 6);
}
