use nugget::command::create_nugget;
use nugget::config::Config;
use nugget::events::{Event, EventQueue};
use nugget::game::CommitmentInfo;
use nugget::market::{BidInfo, MarketNugget};
use nugget::meme::{MemeInfo, StakeInfo};
use nugget::nugget::{Leaderboard, NuggetInfo};
use nugget::player::PlayerData;
use nugget::reward::{reward_for_digest, select_random_drink_reward, DrinkReward};
use nugget::state::{player_key, GlobalState};

fn sample() -> NuggetInfo {
    let mut n = NuggetInfo::new(12, 0x1234);
    n.attributes = [1, 2, 3, 4, 5, 6, 7, 8];
    n.sysprice = 99;
    n.marketid = 4;
    n
}

fn same_nugget(a: &NuggetInfo, b: &NuggetInfo) -> bool {
    a.id == b.id && a.attributes == b.attributes && a.cycle == b.cycle && a.feature == b.feature
        && a.sysprice == b.sysprice && a.marketid == b.marketid
}

#[test]
fn nugget_words() {
    let mut data = vec![77];
    sample().to_data(&mut data);
    assert_eq!(data, vec![77, 12, 578437695752307201, 0, 5, 99, 4]);
    let (back, next) = NuggetInfo::from_data(&data, 1).unwrap();
    assert_eq!(next, 7);
    assert!(same_nugget(&back, &sample()));
    assert!(NuggetInfo::from_data(&data, 2).is_none());
}

#[test]
fn market_words_with_and_without_bid() {
    let plain = MarketNugget::new(3, 800, 0, None, sample(), [5, 6]);
    let mut data = vec![];
    plain.to_data(&mut data);
    assert_eq!(data.len(), 12);
    assert_eq!(data[11], 0);
    let (back, next) = MarketNugget::from_data(&data, 0).unwrap();
    assert_eq!(next, 12);
    assert!(back.bid.is_none());
    assert_eq!(back.owner, [5, 6]);
    assert_eq!(back.askprice, 800);
    assert!(same_nugget(&back.object, &sample()));

    let with_bid = MarketNugget::new(3, 800, 2, Some(BidInfo { bidprice: 0, bidder: [8, 9] }), sample(), [5, 6]);
    let mut data = vec![];
    with_bid.to_data(&mut data);
    assert_eq!(data.len(), 15);
    assert_eq!(&data[11..], &[1, 0, 8, 9]);
    let (back, next) = MarketNugget::from_data(&data, 0).unwrap();
    assert_eq!(next, 15);
    let b = back.bid.unwrap();
    assert_eq!(b.bidprice, 0);
    assert_eq!(b.bidder, [8, 9]);
    assert_eq!(back.settleinfo, 2);

    data[11] = 7;
    assert!(MarketNugget::from_data(&data, 0).is_none());
    data[11] = 1;
    data.pop();
    assert!(MarketNugget::from_data(&data, 0).is_none());
}

#[test]
fn player_words() {
    let p = PlayerData { balance: 10, inventory_size: 4, inventory: vec![3, 1] };
    let mut data = vec![];
    p.to_data(&mut data);
    assert_eq!(data, vec![10, 4, 2, 3, 1]);
    let (back, next) = PlayerData::from_data(&data, 0).unwrap();
    assert_eq!(next, 5);
    assert_eq!(back.balance, 10);
    assert_eq!(back.inventory, vec![3, 1]);
    assert!(PlayerData::from_data(&data[..4].to_vec(), 0).is_none());
}

#[test]
fn state_words_round_trip() {
    let mut s = GlobalState::with_config([0, 0, 0, 0], 10);
    s.counter = 8;
    s.total = 3;
    s.treasure = 70;
    s.cash = 60;
    s.leaderboard = Leaderboard { nuggets: vec![sample()] };
    let words = s.store();
    assert_eq!(words.len(), 11);
    assert_eq!(&words[..5], &[8, 3, 70, 60, 1]);
    let mut t = GlobalState::new();
    assert!(t.initialize(&words));
    assert_eq!(t.counter, 8);
    assert_eq!(t.total, 3);
    assert_eq!(t.treasure, 70);
    assert_eq!(t.cash, 60);
    assert_eq!(t.leaderboard.nuggets.len(), 1);
    assert!(same_nugget(&t.leaderboard.nuggets[0], &sample()));
    let mut u = GlobalState::new();
    assert!(u.initialize(&vec![]));
    assert_eq!(u.counter, 0);
    assert!(!u.initialize(&vec![1, 2]));
    assert!(!u.initialize(&vec![1, 2, 3, 4, 2, 0]));
    assert_eq!(u.counter, 0);
}

#[test]
fn store_keys_are_disjoint() {
    assert_eq!(NuggetInfo::storage_key(1), [0x1ee1 + (1 << 16), 0xfee1, 0xfee1, 0xfee1]);
    assert_eq!(MarketNugget::storage_key(1), [0x1ee2 + (1 << 16), 0xfee2, 0xfee2, 0xfee2]);
    assert_ne!(NuggetInfo::storage_key(5), MarketNugget::storage_key(5));
    assert_eq!(MemeInfo::storage_key(2), [0x1ee1 + (2 << 16), 0xfee1, 0xfee1, 0xfee1]);
}

#[test]
fn meme_and_stake_words() {
    let m = MemeInfo { id: 1, rank: 2, stake: 3, owner: [4, 5] };
    let mut data = vec![];
    m.to_data(&mut data);
    assert_eq!(data, vec![1, 2, 3, 4, 5]);
    let (back, _) = MemeInfo::from_data(&data, 0).unwrap();
    assert_eq!(back.owner, [4, 5]);
    let s = StakeInfo { stake: 9, timestamp: 11 };
    let mut data = vec![];
    s.to_data(&mut data);
    assert_eq!(data, vec![9, 11]);
    assert_eq!(StakeInfo::from_data(&data, 0).unwrap().0.timestamp, 11);
    assert!(StakeInfo::from_data(&data, 1).is_none());
}

#[test]
fn event_queue_insert() {
    let mut q = EventQueue::new();
    q.insert(&[1, 1, 1, 1], 5);
    q.insert(&[2, 2, 2, 2], 7);
    assert_eq!(q.list.len(), 2);
    q.list[0].delta = 3;
    q.insert(&[1, 1, 1, 1], 9);
    assert_eq!(q.list.len(), 2);
    assert_eq!(q.list[0].delta, 100);
    assert_eq!(q.list[1].delta, 7);
    assert_eq!(q.to_data(), vec![1, 1, 1, 1, 100, 2, 2, 2, 2, 7, 0]);
}

#[test]
fn drink_rewards() {
    assert_eq!(DrinkReward::Champagne.reward_value(), 100);
    assert_eq!(DrinkReward::Cocktail.reward_value(), 70);
    assert_eq!(DrinkReward::Beer.reward_value(), 10);
    assert_eq!(reward_for_digest(&[0]), DrinkReward::Champagne);
    assert_eq!(reward_for_digest(&[101 + 55]), DrinkReward::Wine);
    assert_eq!(reward_for_digest(&[100]), DrinkReward::Beer);
    // the first digest bytes are 175, 124 and 170
    assert_eq!(select_random_drink_reward(0), DrinkReward::Vodka);
    assert_eq!(select_random_drink_reward(1), DrinkReward::Whiskey);
    assert_eq!(select_random_drink_reward(7), DrinkReward::Tequila);
}

#[test]
fn config_and_commitment() {
    assert!(!Config::autotick());
    let c = Config::new();
    assert_eq!(c.name, ["nugget"]);
    assert_eq!(CommitmentInfo::new(3, 4).0, [3, 4]);
}

#[test]
fn state_accessors() {
    let mut s = GlobalState::with_config([1, 1, 1, 1], 5);
    assert_eq!(s.get_counter(), 0);
    assert_eq!(GlobalState::rand_seed(), 0);
    assert_eq!(s.deal_delay, 5);
    assert!(s.player(&[1, 1]).is_none());
    s.add_player([1, 1]);
    s.credit_player(player_key(&[1, 1]), 6000);
    assert_eq!(create_nugget(&mut s, &[1, 1], 0), Ok(()));
    assert_eq!(s.nugget(0).unwrap().sysprice, 128);
    assert!(s.market(0).is_none());
}

#[test]
fn config_json_is_empty_list() {
    assert_eq!(Config::to_json_string(), "[]");
}

#[test]
fn event_fetch_from_words() {
    let mut buf = vec![9, 1, 2, 3, 4, 5];
    let e = Event::fetch(&mut buf).unwrap();
    assert_eq!(e.owner, [1, 2, 3, 4]);
    assert_eq!(e.delta, 5);
    assert_eq!(buf, vec![9]);
    assert!(Event::fetch(&mut buf).is_none());
    assert_eq!(buf, vec![9]);
}

#[test]
fn event_queue_fetch_and_tick() {
    let mut q = EventQueue::new();
    assert!(q.fetch(vec![1, 1, 1, 1, 0, 2, 2, 2, 2, 3, 40]));
    assert_eq!(q.counter, 40);
    assert_eq!(q.list.len(), 2);
    // the last stored event comes first
    assert_eq!(q.list[0].owner, [2, 2, 2, 2]);
    assert_eq!(q.list[1].delta, 0);
    q.tick();
    assert_eq!(q.counter, 41);
    assert_eq!(q.list.len(), 1);
    assert_eq!(q.list[0].delta, 2);
    assert!(!q.fetch(vec![1, 2, 3]));
    assert_eq!(q.counter, 41);
    assert!(q.fetch(vec![]));
    assert_eq!(q.list.len(), 1);
}

#[test]
fn query_state_copies_counters() {
    let mut s = GlobalState::new();
    s.total = 4;
    s.cash = 9;
    s.leaderboard = Leaderboard { nuggets: vec![sample()] };
    let q = s.query_state();
    assert_eq!(q.total, 4);
    assert_eq!(q.cash, 9);
    assert_eq!(q.leaderboard.len(), 1);
    assert_eq!(q.leaderboard[0].id, 12);
}

#[test]
fn event_queue_lists_registered_players() {
    let mut s = GlobalState::new();
    s.add_player([1, 1]);
    s.add_player([3, 3]);
    let mut q = EventQueue::new();
    for owner in [[0, 9, 9, 0], [0, 1, 1, 0], [0, 2, 2, 0], [0, 3, 3, 0]] {
        q.insert(&owner, 5);
    }
    assert_eq!(q.get_players(&s, &[0, 1, 1, 0]), vec![[0, 1, 1, 0], [0, 3, 3, 0]]);
    assert_eq!(q.get_players(&s, &[0, 2, 2, 0]), vec![[0, 3, 3, 0]]);
    assert!(q.get_players(&s, &[0, 7, 7, 0]).is_empty());
}

#[test]
fn event_queue_lists_at_most_twenty() {
    let mut s = GlobalState::new();
    let mut q = EventQueue::new();
    for i in 0..25u64 {
        s.add_player([i, i]);
        q.insert(&[0, i, i, 0], 1);
    }
    let players = q.get_players(&s, &[0, 2, 2, 0]);
    assert_eq!(players.len(), 20);
    assert_eq!(players[0], [0, 2, 2, 0]);
    assert_eq!(players[19], [0, 21, 21, 0]);
}
