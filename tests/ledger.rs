use nugget::error::{ERROR_INVALID_NONCE, INVALID_NUGGET_INDEX, PLAYER_NOT_ENOUGH_BALANCE, PLAYER_NOT_ENOUGH_INVENTORY};
use nugget::player::{pkey_to_pid, GamePlayer, Owner, PlayerData};
use nugget::state::GlobalState;

#[test]
fn default_player_data() {
    let p = PlayerData::default();
    assert_eq!(p.balance, 0);
    assert_eq!(p.inventory_size, 4);
    assert!(p.inventory.is_empty());
}

#[test]
fn debit_checks_balance() {
    let mut p = PlayerData::default();
    p.balance = 100;
    assert_eq!(p.cost_balance(101), Err(PLAYER_NOT_ENOUGH_BALANCE));
    assert_eq!(p.balance, 100);
    assert_eq!(p.cost_balance(100), Ok(()));
    assert_eq!(p.balance, 0);
}

#[test]
fn credit_adds_and_saturates() {
    let mut p = PlayerData::default();
    p.inc_balance(250);
    assert_eq!(p.balance, 250);
    p.inc_balance(u64::MAX);
    assert_eq!(p.balance, u64::MAX);
}

#[test]
fn add_item_respects_capacity() {
    let mut p = PlayerData::default();
    for id in 0..4 {
        assert_eq!(p.add_item(id), Ok(()));
    }
    assert_eq!(p.add_item(9), Err(PLAYER_NOT_ENOUGH_INVENTORY));
    assert_eq!(p.inventory, vec![0, 1, 2, 3]);
}

#[test]
fn remove_item_by_value() {
    let mut p = PlayerData::default();
    p.inventory = vec![5, 6, 7, 8];
    assert_eq!(p.remove_item(6), Ok(()));
    assert_eq!(p.inventory, vec![5, 8, 7]);
    assert_eq!(p.remove_item(6), Err(INVALID_NUGGET_INDEX));
    assert_eq!(p.inventory, vec![5, 8, 7]);
    assert_eq!(p.find_item(7), Some(2));
}

#[test]
fn nonce_must_match_and_advances() {
    let mut g = GamePlayer::new_from_pid([1, 2]);
    assert_eq!(g.check_and_inc_nonce(1), Err(ERROR_INVALID_NONCE));
    assert_eq!(g.nonce, 0);
    assert_eq!(g.check_and_inc_nonce(0), Ok(()));
    assert_eq!(g.nonce, 1);
    assert_eq!(g.check_and_inc_nonce(0), Err(ERROR_INVALID_NONCE));
    assert_eq!(g.nonce, 1);
}

#[test]
fn pid_is_middle_words_of_key() {
    assert_eq!(pkey_to_pid(&[1, 2, 3, 4]), [2, 3]);
}

#[test]
fn owner_by_public_key() {
    let g = <GamePlayer as Owner>::new(&[7, 8, 9, 10]);
    assert_eq!(g.player_id, [8, 9]);
    assert_eq!(g.nonce, 0);
    let mut s = GlobalState::new();
    assert!(<GamePlayer as Owner>::get(&s, &[7, 8, 9, 10]).is_none());
    s.add_player([8, 9]);
    let p = <GamePlayer as Owner>::get(&s, &[0, 8, 9, 0]).unwrap();
    assert_eq!(p.player_id, [8, 9]);
    assert_eq!(p.data.inventory_size, 4);
}
