use nugget::command::{decode_error, Activity, Command};
use nugget::error::{
    ERROR_INVALID_NONCE, ERROR_NOT_ADMIN, ERROR_NUGGET_ATTRIBUTES_ALL_EXPLORED,
    ERROR_PLAYER_ALREADY_EXIST, ERROR_PLAYER_NOT_EXIST, INVALID_NUGGET_INDEX, NOT_ENOUGH_TREASURE,
    PLAYER_NOT_ENOUGH_BALANCE, PLAYER_NOT_ENOUGH_INVENTORY,
};
use nugget::state::{
    GlobalState, Transaction, BID_NUGGET, CREATE_NUGGET, DEPOSIT, EXPLORE_NUGGET, INSTALL_PLAYER,
    LIST_NUGGET, RECYCLE_NUGGET, SELL_NUGGET, TICK, WITHDRAW,
};

const ADMIN: [u64; 4] = [1, 2, 3, 4];
const ALICE: [u64; 4] = [9, 10, 11, 12];
const BOB: [u64; 4] = [5, 6, 7, 8];
const RAND: [u64; 4] = [0, 0x1234, 70, 0];

fn header(op: u64, nonce: u64) -> u64 {
    (nonce << 16) | op
}

fn run(s: &mut GlobalState, pkey: &[u64; 4], params: &[u64]) -> (u64, u64) {
    let tx = Transaction::decode(params).unwrap();
    let out = tx.process(s, pkey, &RAND);
    assert_eq!(out.len(), 2);
    (out[0], out[1])
}

fn pid(pkey: &[u64; 4]) -> [u64; 2] {
    [pkey[1], pkey[2]]
}

fn balance(s: &GlobalState, pkey: &[u64; 4]) -> u64 {
    s.player(&pid(pkey)).unwrap().data.balance
}

/// Admin, Alice and Bob installed; Alice and Bob each got a deposit of 20000.
fn game() -> GlobalState {
    let mut s = GlobalState::with_config(ADMIN, 100);
    assert_eq!(run(&mut s, &ADMIN, &[header(INSTALL_PLAYER, 0)]).0, 0);
    assert_eq!(run(&mut s, &ALICE, &[header(INSTALL_PLAYER, 0)]).0, 0);
    assert_eq!(run(&mut s, &BOB, &[header(INSTALL_PLAYER, 0)]).0, 0);
    assert_eq!(run(&mut s, &ADMIN, &[header(DEPOSIT, 0), 10, 11, 0, 20_000]).0, 0);
    assert_eq!(run(&mut s, &ADMIN, &[header(DEPOSIT, 1), 6, 7, 0, 20_000]).0, 0);
    s
}

#[test]
fn install_and_deposit() {
    let s = game();
    assert_eq!(balance(&s, &ALICE), 20_000);
    assert_eq!(balance(&s, &BOB), 20_000);
    assert_eq!(s.treasure, 40_000);
    assert_eq!(s.cash, 40_000);
    assert_eq!(s.txsize, 5);
    assert_eq!(s.player(&pid(&ADMIN)).unwrap().nonce, 2);
}

#[test]
fn install_twice_fails() {
    let mut s = game();
    assert_eq!(run(&mut s, &ALICE, &[header(INSTALL_PLAYER, 0)]), (ERROR_PLAYER_ALREADY_EXIST as u64, 5));
}

#[test]
fn deposit_and_tick_need_admin() {
    let mut s = game();
    assert_eq!(run(&mut s, &ALICE, &[header(DEPOSIT, 0), 10, 11, 0, 5]).0, ERROR_NOT_ADMIN as u64);
    assert_eq!(run(&mut s, &ALICE, &[header(TICK, 0)]).0, ERROR_NOT_ADMIN as u64);
    assert_eq!(balance(&s, &ALICE), 20_000);
    assert_eq!(s.counter, 0);
    assert_eq!(run(&mut s, &ADMIN, &[header(TICK, 0)]), (0, 5));
    assert_eq!(s.counter, 1);
}

#[test]
fn deposit_to_missing_account() {
    let mut s = game();
    assert_eq!(run(&mut s, &ADMIN, &[header(DEPOSIT, 2), 77, 77, 0, 5]).0, ERROR_PLAYER_NOT_EXIST as u64);
    assert_eq!(s.player(&pid(&ADMIN)).unwrap().nonce, 3);
    assert_eq!(s.treasure, 40_000);
}

#[test]
fn create_explore_recycle_flow() {
    let mut s = game();
    assert_eq!(run(&mut s, &ALICE, &[header(CREATE_NUGGET, 0)]).0, 0);
    assert_eq!(balance(&s, &ALICE), 15_000);
    assert_eq!(s.cash, 35_000);
    let n = s.nugget(0).unwrap();
    assert_eq!(n.attributes, [20, 0, 0, 0, 0, 0, 0, 0]);
    assert_eq!(n.sysprice, 120);
    assert_eq!(run(&mut s, &ALICE, &[header(EXPLORE_NUGGET, 1), 0]).0, 0);
    let n = s.nugget(0).unwrap();
    assert_eq!(n.attributes, [20, 7, 0, 0, 0, 0, 0, 0]);
    assert_eq!(n.sysprice, 136);
    assert_eq!(balance(&s, &ALICE), 15_000 - 30);
    assert_eq!(run(&mut s, &ALICE, &[header(RECYCLE_NUGGET, 2), 0]).0, 0);
    assert_eq!(balance(&s, &ALICE), 15_000 - 30 + 136);
    assert_eq!(s.nugget(0).unwrap().cycle, 1);
    assert!(s.player(&pid(&ALICE)).unwrap().data.inventory.is_empty());
    assert_eq!(run(&mut s, &ALICE, &[header(RECYCLE_NUGGET, 3), 0]).0, INVALID_NUGGET_INDEX as u64);
}

#[test]
fn explore_on_exhausted_item_fails() {
    let mut s = game();
    assert_eq!(run(&mut s, &ALICE, &[header(CREATE_NUGGET, 0)]).0, 0);
    for i in 1..8 {
        assert_eq!(run(&mut s, &ALICE, &[header(EXPLORE_NUGGET, i), 0]).0, 0);
    }
    let before = s.nugget(0).unwrap();
    let money = balance(&s, &ALICE);
    assert_eq!(run(&mut s, &ALICE, &[header(EXPLORE_NUGGET, 8), 0]).0, ERROR_NUGGET_ATTRIBUTES_ALL_EXPLORED as u64);
    let after = s.nugget(0).unwrap();
    assert_eq!(after.attributes, before.attributes);
    assert_eq!(after.sysprice, before.sysprice);
    assert_eq!(balance(&s, &ALICE), money);
}

#[test]
fn nonce_cannot_be_reused() {
    let mut s = game();
    assert_eq!(run(&mut s, &ALICE, &[header(CREATE_NUGGET, 0)]).0, 0);
    assert_eq!(run(&mut s, &ALICE, &[header(CREATE_NUGGET, 0)]).0, ERROR_INVALID_NONCE as u64);
    assert_eq!(run(&mut s, &ALICE, &[header(CREATE_NUGGET, 5)]).0, ERROR_INVALID_NONCE as u64);
    assert_eq!(s.player(&pid(&ALICE)).unwrap().nonce, 1);
    assert_eq!(s.total, 1);
    assert_eq!(run(&mut s, &ALICE, &[header(CREATE_NUGGET, 1)]).0, 0);
    assert_eq!(s.player(&pid(&ALICE)).unwrap().nonce, 2);
}

#[test]
fn failed_command_still_uses_nonce() {
    let mut s = game();
    assert_eq!(run(&mut s, &ALICE, &[header(EXPLORE_NUGGET, 0), 3]).0, INVALID_NUGGET_INDEX as u64);
    assert_eq!(s.player(&pid(&ALICE)).unwrap().nonce, 1);
    assert_eq!(run(&mut s, &ALICE, &[header(EXPLORE_NUGGET, 0), 3]).0, ERROR_INVALID_NONCE as u64);
}

#[test]
fn create_with_full_inventory_fails() {
    let mut s = game();
    for i in 0..4 {
        assert_eq!(run(&mut s, &ALICE, &[header(CREATE_NUGGET, i)]).0, 0);
    }
    let money = balance(&s, &ALICE);
    let total = s.total;
    assert_eq!(run(&mut s, &ALICE, &[header(CREATE_NUGGET, 4)]).0, PLAYER_NOT_ENOUGH_INVENTORY as u64);
    assert_eq!(balance(&s, &ALICE), money);
    assert_eq!(s.total, total);
    assert_eq!(s.player(&pid(&ALICE)).unwrap().data.inventory.len(), 4);
}

#[test]
fn create_needs_fee() {
    let mut s = game();
    assert_eq!(run(&mut s, &ADMIN, &[header(CREATE_NUGGET, 2)]).0, PLAYER_NOT_ENOUGH_BALANCE as u64);
    assert_eq!(s.total, 0);
}

#[test]
fn unknown_account_is_refused() {
    let mut s = game();
    assert_eq!(run(&mut s, &[0, 70, 70, 0], &[header(CREATE_NUGGET, 0)]).0, ERROR_PLAYER_NOT_EXIST as u64);
}

#[test]
fn market_through_commands() {
    let mut s = game();
    assert_eq!(run(&mut s, &ALICE, &[header(CREATE_NUGGET, 0)]).0, 0);
    assert_eq!(run(&mut s, &ALICE, &[header(LIST_NUGGET, 1), 0, 800]).0, 0);
    assert_eq!(balance(&s, &ALICE), 14_500);
    assert_eq!(s.cash, 34_500);
    assert_eq!(run(&mut s, &BOB, &[header(BID_NUGGET, 0), 1, 300]).0, 0);
    assert_eq!(balance(&s, &BOB), 19_700);
    assert_eq!(run(&mut s, &ALICE, &[header(SELL_NUGGET, 2), 1]).0, 0);
    assert_eq!(balance(&s, &ALICE), 14_800);
    assert_eq!(s.player(&pid(&BOB)).unwrap().data.inventory, vec![0]);
    assert_eq!(s.market(1).unwrap().settleinfo, 2);
}

#[test]
fn withdraw_and_flush() {
    let mut s = game();
    assert_eq!(run(&mut s, &ALICE, &[header(WITHDRAW, 0), 0, 50_000, 0xaa, 0xbb]).0, NOT_ENOUGH_TREASURE as u64);
    assert_eq!(run(&mut s, &ALICE, &[header(WITHDRAW, 1), 0, 25_000, 0xaa, 0xbb]).0, PLAYER_NOT_ENOUGH_BALANCE as u64);
    assert_eq!(run(&mut s, &ALICE, &[header(WITHDRAW, 2), 0, (7 << 32) | 300, 0xaa, 0xbb]).0, 0);
    assert_eq!(balance(&s, &ALICE), 19_700);
    assert_eq!(s.treasure, 39_700);
    assert_eq!(s.cash, 39_700);
    let bytes = s.flush_settlement();
    assert_eq!(bytes.len(), 24);
    assert_eq!(&bytes[0..8], &((7u64 << 32) | 300).to_le_bytes());
    assert_eq!(&bytes[8..16], &0xaau64.to_le_bytes());
    assert_eq!(&bytes[16..24], &0xbbu64.to_le_bytes());
    assert!(s.settlements.is_empty());
    assert!(s.flush_settlement().is_empty());
}

#[test]
fn preempt_resets_transaction_count() {
    let mut s = game();
    // counter 0 is a multiple of 1000
    assert!(s.preempt());
    assert_eq!(s.txsize, 0);
    s.counter = 5;
    s.txsize = 199;
    assert!(!s.preempt());
    s.txsize = 200;
    assert!(s.preempt());
    assert_eq!(s.txsize, 0);
}

#[test]
fn decode_commands() {
    let t = Transaction::decode(&[header(BID_NUGGET, 9), 4, 500]).unwrap();
    assert_eq!(t.nonce, 9);
    assert!(matches!(t.command, Command::Activity(Activity::Bid(4, 500))));
    let t = Transaction::decode(&[header(DEPOSIT, 1), 10, 11, 0, 20]).unwrap();
    match t.command {
        Command::Deposit(d) => assert_eq!(d.data, [10, 11, 20]),
        _ => panic!("not a deposit"),
    }
    let t = Transaction::decode(&[header(WITHDRAW, 1), 0, 3, 4, 5]).unwrap();
    match t.command {
        Command::Withdraw(w) => assert_eq!(w.data, [3, 4, 5]),
        _ => panic!("not a withdrawal"),
    }
    assert!(matches!(Transaction::decode(&[header(TICK, 0)]).unwrap().command, Command::Tick));
    assert!(Transaction::decode(&[header(DEPOSIT, 1), 10, 11, 1, 20]).is_none());
    assert!(Transaction::decode(&[header(LIST_NUGGET, 1), 10]).is_none());
    assert!(Transaction::decode(&[header(42, 1)]).is_none());
    assert!(Transaction::decode(&[]).is_none());
}

#[test]
fn error_labels() {
    assert_eq!(decode_error(ERROR_PLAYER_NOT_EXIST), "PlayerNotExist");
    assert_eq!(decode_error(PLAYER_NOT_ENOUGH_INVENTORY), "PlayerInventoryFull");
    assert_eq!(decode_error(ERROR_NUGGET_ATTRIBUTES_ALL_EXPLORED), "NuggetAttributeAllExplored");
    assert_eq!(Transaction::decode_error(INVALID_NUGGET_INDEX), "SpecifiedNuggetIndexNotFound");
    assert_eq!(decode_error(9999), "Unknown");
}
