use std::collections::HashMap;
use vstd::prelude::*;
use crate::command::{
    activity_spec, bumped, create_error, create_post, decode_error, deposit_post, deposit_target,
    error_label, explore_error, explore_post, held_id, nonce_error, recycle_error, recycle_post,
    withdraw_error, withdraw_post, Activity, Command, CommandHandler, Deposit, Withdraw,
};
use crate::market::{
    bid_error, bid_post, bid_spec, lemma_bid_tag_odd, list_error, list_post, list_spec,
    settle_error, settle_post, settle_spec, MarketNugget,
};
use crate::config::MARKET_DEAL_DELAY;
use crate::error::{ERROR_NOT_ADMIN, ERROR_PLAYER_ALREADY_EXIST};
use crate::nugget::{word_byte, Leaderboard, NuggetInfo};
use crate::player::{pid_of, pkey_to_pid, Owner, DEFAULT_INVENTORY_SIZE, credited, swap_removed, is_first_index, GamePlayer};

verus! {

broadcast use vstd::std_specs::hash::group_hash_axioms;

/// What the state holds of one account.
pub struct PlayerView {
    pub nonce: u64,
    pub balance: u64,
    pub inventory_size: u64,
    pub inventory: Seq<u64>,
}

/// A withdrawal waiting to be paid out by the settlement queue.
#[derive(Clone, Copy, Debug)]
pub struct WithdrawRecord {
    pub data: [u64; 3],
}

/// The whole game state as mathematical values.
pub struct StateView {
    pub total: u64,
    pub counter: u64,
    pub txsize: u64,
    pub treasure: u64,
    pub cash: u64,
    pub leaderboard: Seq<NuggetInfo>,
    pub players: Map<u128, PlayerView>,
    pub nuggets: Map<u64, NuggetInfo>,
    pub markets: Map<u64, MarketNugget>,
    pub settlements: Seq<WithdrawRecord>,
    pub admin: [u64; 4],
    pub deal_delay: u64,
}

/// Counters, accounts, items, listings and pending withdrawals of one game.
pub struct GlobalState {
    /// Next id to assign, shared by items and listings.
    pub total: u64,
    /// Logical clock.
    pub counter: u64,
    /// Successful transactions since the last preemption.
    pub txsize: u64,
    pub treasure: u64,
    pub cash: u64,
    pub leaderboard: Leaderboard,
    pub players: HashMap<u128, GamePlayer>,
    pub nuggets: HashMap<u64, NuggetInfo>,
    pub markets: HashMap<u64, MarketNugget>,
    pub settlements: Vec<WithdrawRecord>,
    /// Public key allowed to run admin-only commands.
    pub admin: [u64; 4],
    /// Ticks after a bid when anyone may settle the listing.
    pub deal_delay: u64,
}

/// A game with no account, item or listing, and all counters at zero.
pub open spec fn initial_view(admin: [u64; 4], deal_delay: u64) -> StateView {
    StateView {
        total: 0,
        counter: 0,
        txsize: 0,
        treasure: 0,
        cash: 0,
        leaderboard: Seq::empty(),
        players: Map::empty(),
        nuggets: Map::empty(),
        markets: Map::empty(),
        settlements: Seq::empty(),
        admin,
        deal_delay,
    }
}

/// Map key of an account id.
pub open spec fn pid_key(pid: [u64; 2]) -> u128 {
    (pid[0] as int * 0x1_0000_0000_0000_0000 + pid[1] as int) as u128
}

impl GamePlayer {
    /// What the state records of this account.
    pub open spec fn view(&self) -> PlayerView {
        PlayerView {
            nonce: self.nonce,
            balance: self.data.balance,
            inventory_size: self.data.inventory_size,
            inventory: self.data.inventory@,
        }
    }
}

/// A fresh account: nonce zero, no balance, default capacity, nothing held.
pub open spec fn new_player_view() -> PlayerView {
    PlayerView { nonce: 0, balance: 0, inventory_size: DEFAULT_INVENTORY_SIZE, inventory: Seq::empty() }
}

/// The accounts of a map of players, as the state records them.
pub open spec fn players_view(m: Map<u128, GamePlayer>) -> Map<u128, PlayerView> {
    m.map_values(|p: GamePlayer| p.view())
}

/// Accounts after crediting `amount` to `k`.
pub open spec fn credit(m: Map<u128, PlayerView>, k: u128, amount: u64) -> Map<u128, PlayerView> {
    m.insert(k, PlayerView { balance: credited(m[k].balance, amount), ..m[k] })
}

/// Accounts after debiting `amount` from `k`.
pub open spec fn debit(m: Map<u128, PlayerView>, k: u128, amount: u64) -> Map<u128, PlayerView> {
    m.insert(k, PlayerView { balance: (m[k].balance - amount) as u64, ..m[k] })
}

/// Accounts after item `id` enters the inventory of `k`.
pub open spec fn give(m: Map<u128, PlayerView>, k: u128, id: u64) -> Map<u128, PlayerView> {
    m.insert(k, PlayerView { inventory: m[k].inventory.push(id), ..m[k] })
}

/// First position of `id` in an inventory.
pub open spec fn first_index(s: Seq<u64>, id: u64) -> int {
    choose|i: int| is_first_index(s, id, i)
}

/// Accounts after item `id` leaves the inventory of `k`.
pub open spec fn take(m: Map<u128, PlayerView>, k: u128, id: u64) -> Map<u128, PlayerView> {
    m.insert(
        k,
        PlayerView { inventory: swap_removed(m[k].inventory, first_index(m[k].inventory, id)), ..m[k] },
    )
}

/// Accounts after the nonce of `k` moves on by one.
pub open spec fn bump(m: Map<u128, PlayerView>, k: u128) -> Map<u128, PlayerView> {
    m.insert(k, PlayerView { nonce: (m[k].nonce + 1) as u64, ..m[k] })
}

/// `a - b`, or zero when `b` is larger.
pub open spec fn sat_sub(a: u64, b: u64) -> u64 {
    if a >= b {
        (a - b) as u64
    } else {
        0
    }
}

proof fn lemma_players_insert(m: Map<u128, GamePlayer>, k: u128, p: GamePlayer)
    requires
        m.contains_key(k),
    ensures
        players_view(m.remove(k).insert(k, p)) == players_view(m).insert(k, p.view()),
{
    assert(players_view(m.remove(k).insert(k, p)) =~= players_view(m).insert(k, p.view()));
}

impl View for GlobalState {
    type V = StateView;

    open spec fn view(&self) -> StateView {
        StateView {
            total: self.total,
            counter: self.counter,
            txsize: self.txsize,
            treasure: self.treasure,
            cash: self.cash,
            leaderboard: self.leaderboard.nuggets@,
            players: players_view(self.players@),
            nuggets: self.nuggets@,
            markets: self.markets@,
            settlements: self.settlements@,
            admin: self.admin,
            deal_delay: self.deal_delay,
        }
    }
}

impl Owner for GamePlayer {
    open spec fn owner_view(&self) -> PlayerView {
        self.view()
    }

    open spec fn owner_id(&self) -> [u64; 2] {
        self.player_id
    }

    fn new(pkey: &[u64; 4]) -> (r: Self) {
        GamePlayer::new_from_pid(pkey_to_pid(pkey))
    }

    fn get<'a>(state: &'a GlobalState, pkey: &[u64; 4]) -> (r: Option<&'a Self>) {
        state.player(&pkey_to_pid(pkey))
    }
}

/// Counters and leaderboard, the part of the state that anyone may query.
pub struct QueryState {
    pub total: u64,
    pub counter: u64,
    pub treasure: u64,
    pub cash: u64,
    pub leaderboard: Vec<NuggetInfo>,
}

/// Map key of an account id.
pub fn player_key(pid: &[u64; 2]) -> (k: u128)
    ensures
        k == pid_key(*pid),
{
    (pid[0] as u128) * 0x1_0000_0000_0000_0000u128 + (pid[1] as u128)
}

/// The eight bytes of a word, little end first.
pub open spec fn word_le(w: u64) -> Seq<u8> {
    seq![
        word_byte(w, 0),
        word_byte(w, 1),
        word_byte(w, 2),
        word_byte(w, 3),
        word_byte(w, 4),
        word_byte(w, 5),
        word_byte(w, 6),
        word_byte(w, 7),
    ]
}

/// Bytes of a withdrawal record: its three words, little end first.
pub open spec fn record_bytes(r: WithdrawRecord) -> Seq<u8> {
    word_le(r.data[0]) + word_le(r.data[1]) + word_le(r.data[2])
}

/// Bytes of a queue of withdrawal records, in order.
pub open spec fn settlement_bytes(s: Seq<WithdrawRecord>) -> Seq<u8>
    decreases s.len(),
{
    if s.len() == 0 {
        Seq::empty()
    } else {
        settlement_bytes(s.drop_last()) + record_bytes(s.last())
    }
}

/// Encodings of a sequence of items, one after another.
pub open spec fn encode_all(s: Seq<NuggetInfo>) -> Seq<u64>
    decreases s.len(),
{
    if s.len() == 0 {
        Seq::empty()
    } else {
        encode_all(s.drop_last()) + s.last().encode()
    }
}

/// Words under which the counters and the leaderboard are stored.
pub open spec fn state_words(s: StateView) -> Seq<u64> {
    seq![s.counter, s.total, s.treasure, s.cash, s.leaderboard.len() as u64] + encode_all(s.leaderboard)
}

/// The `i`-th item of a leaderboard stored in `w`.
pub open spec fn stored_entry(w: Seq<u64>, i: int) -> NuggetInfo {
    NuggetInfo::decode(w.subrange(5 + 6 * i, 11 + 6 * i))
}

/// Words `w` hold stored counters: none at all, the four counters alone, or the four
/// counters, a leaderboard length and that many items.
pub open spec fn state_decodes(w: Seq<u64>) -> bool {
    w.len() == 0 || w.len() == 4 || (w.len() >= 5 && w.len() >= 5 + 6 * w[4])
}

/// Appends the bytes of a word, little end first.
fn push_word_le(out: &mut Vec<u8>, w: u64)
    ensures
        final(out)@ == old(out)@ + word_le(w),
{
    out.push((w & 0xff) as u8);
    out.push(((w >> 8u64) & 0xff) as u8);
    out.push(((w >> 16u64) & 0xff) as u8);
    out.push(((w >> 24u64) & 0xff) as u8);
    out.push(((w >> 32u64) & 0xff) as u8);
    out.push(((w >> 40u64) & 0xff) as u8);
    out.push(((w >> 48u64) & 0xff) as u8);
    out.push(((w >> 56u64) & 0xff) as u8);
    assert(w & 0xff == (w >> 0u64) & 0xff) by (bit_vector);
    assert(final(out)@ =~= old(out)@ + word_le(w));
}

impl GlobalState {
    /// An empty game run by `admin`, where a bid may be forced through `deal_delay` ticks
    /// after it was placed.
    pub fn with_config(admin: [u64; 4], deal_delay: u64) -> (r: Self)
        ensures
            r@ == initial_view(admin, deal_delay),
    {
        let r = GlobalState {
            total: 0,
            counter: 0,
            txsize: 0,
            treasure: 0,
            cash: 0,
            leaderboard: Leaderboard::new(),
            players: HashMap::new(),
            nuggets: HashMap::new(),
            markets: HashMap::new(),
            settlements: Vec::new(),
            admin,
            deal_delay,
        };
        assert(r@.players =~= Map::<u128, PlayerView>::empty());
        assert(r@.leaderboard =~= Seq::<NuggetInfo>::empty());
        assert(r@.settlements =~= Seq::<WithdrawRecord>::empty());
        r
    }

    /// An empty game with the default settlement delay and an all-zero admin key.
    pub fn new() -> (r: Self)
        ensures
            r@ == initial_view([0, 0, 0, 0], MARKET_DEAL_DELAY),
    {
        Self::with_config([0, 0, 0, 0], MARKET_DEAL_DELAY)
    }

    /// The logical clock.
    pub fn get_counter(&self) -> (r: u64)
        ensures
            r == self@.counter,
    {
        self.counter
    }

    /// Always zero: the host supplies the randomness of each command.
    pub fn rand_seed() -> (r: u64)
        ensures
            r == 0,
    {
        0
    }

    /// Whether the host should cut a batch here: every thousandth tick, after 200
    /// transactions, or with more than 40 withdrawals waiting. Cutting restarts the
    /// transaction count.
    pub fn preempt(&mut self) -> (r: bool)
        ensures
            r == (old(self)@.counter % 1000 == 0 || old(self)@.txsize >= 200
                || old(self)@.settlements.len() > 40),
            final(self)@ == (if r {
                StateView { txsize: 0, ..old(self)@ }
            } else {
                old(self)@
            }),
    {
        if self.counter % 1000 == 0 || self.txsize >= 200 || self.settlements.len() > 40 {
            self.txsize = 0;
            true
        } else {
            false
        }
    }

    /// Hands out the bytes of the waiting withdrawals and empties the queue.
    pub fn flush_settlement(&mut self) -> (r: Vec<u8>)
        ensures
            r@ == settlement_bytes(old(self)@.settlements),
            final(self)@ == (StateView { settlements: Seq::empty(), ..old(self)@ }),
    {
        let mut out: Vec<u8> = Vec::new();
        let mut i: usize = 0;
        while i < self.settlements.len()
            invariant
                0 <= i <= self.settlements@.len(),
                self.settlements@ == old(self).settlements@,
                out@ == settlement_bytes(self.settlements@.subrange(0, i as int)),
            decreases self.settlements@.len() - i,
        {
            let rec = self.settlements[i];
            push_word_le(&mut out, rec.data[0]);
            push_word_le(&mut out, rec.data[1]);
            push_word_le(&mut out, rec.data[2]);
            proof {
                let sub = self.settlements@.subrange(0, i + 1);
                assert(sub.drop_last() =~= self.settlements@.subrange(0, i as int));
                assert(out@ =~= settlement_bytes(sub));
            }
            i += 1;
        }
        assert(self.settlements@.subrange(0, i as int) =~= self.settlements@);
        self.settlements.clear();
        out
    }

    /// The words under which the counters and the leaderboard are stored.
    pub fn store(&self) -> (r: Vec<u64>)
        ensures
            r@ == state_words(self@),
    {
        let mut v: Vec<u64> = Vec::new();
        v.push(self.counter);
        v.push(self.total);
        v.push(self.treasure);
        v.push(self.cash);
        v.push(self.leaderboard.nuggets.len() as u64);
        let ghost head = v@;
        let mut i: usize = 0;
        while i < self.leaderboard.nuggets.len()
            invariant
                0 <= i <= self.leaderboard.nuggets@.len(),
                v@ == head + encode_all(self.leaderboard.nuggets@.subrange(0, i as int)),
            decreases self.leaderboard.nuggets@.len() - i,
        {
            self.leaderboard.nuggets[i].to_data(&mut v);
            proof {
                let sub = self.leaderboard.nuggets@.subrange(0, i + 1);
                assert(sub.drop_last() =~= self.leaderboard.nuggets@.subrange(0, i as int));
            }
            i += 1;
        }
        assert(self.leaderboard.nuggets@.subrange(0, i as int) =~= self.leaderboard.nuggets@);
        assert(v@ =~= state_words(self@));
        v
    }

    /// Loads counters and leaderboard from their stored words. Empty words change
    /// nothing; words of another shape are refused, changing nothing.
    pub fn initialize(&mut self, data: &Vec<u64>) -> (r: bool)
        ensures
            r == state_decodes(data@),
            !r || data@.len() == 0 ==> final(self)@ == old(self)@,
            r && data@.len() >= 4 ==> {
                &&& final(self)@.counter == data@[0]
                &&& final(self)@.total == data@[1]
                &&& final(self)@.treasure == data@[2]
                &&& final(self)@.cash == data@[3]
                &&& data@.len() == 4 ==> final(self)@.leaderboard == old(self)@.leaderboard
                &&& data@.len() > 4 ==> final(self)@.leaderboard.len() == data@[4]
                &&& data@.len() > 4 ==> forall|i: int|
                    0 <= i < data@[4] ==> #[trigger] final(self)@.leaderboard[i] == stored_entry(data@, i)
                &&& final(self)@ == (StateView {
                    counter: data@[0],
                    total: data@[1],
                    treasure: data@[2],
                    cash: data@[3],
                    leaderboard: final(self)@.leaderboard,
                    ..old(self)@
                })
            },
    {
        let n = data.len();
        if n == 0 {
            return true;
        }
        if n < 4 {
            return false;
        }
        if n == 4 {
            self.counter = data[0];
            self.total = data[1];
            self.treasure = data[2];
            self.cash = data[3];
            return true;
        }
        let l = data[4];
        if l > ((n - 5) / 6) as u64 {
            return false;
        }
        let mut nuggets: Vec<NuggetInfo> = Vec::new();
        let mut i: usize = 0;
        let mut pos: usize = 5;
        while (i as u64) < l
            invariant
                0 <= i <= l,
                6 * l + 5 <= n,
                n == data@.len(),
                pos == 5 + 6 * i,
                nuggets@.len() == i,
                forall|j: int| 0 <= j < i ==> #[trigger] nuggets@[j] == stored_entry(data@, j),
            decreases l - i,
        {
            match NuggetInfo::from_data(data, pos) {
                Some((e, next)) => {
                    nuggets.push(e);
                    pos = next;
                },
                None => {
                    assert(false);
                },
            }
            i += 1;
        }
        self.counter = data[0];
        self.total = data[1];
        self.treasure = data[2];
        self.cash = data[3];
        self.leaderboard = Leaderboard { nuggets };
        true
    }

    /// The queryable part of the state.
    pub fn query_state(&self) -> (r: QueryState)
        ensures
            r.total == self@.total,
            r.counter == self@.counter,
            r.treasure == self@.treasure,
            r.cash == self@.cash,
            r.leaderboard@ == self@.leaderboard,
    {
        let mut leaderboard: Vec<NuggetInfo> = Vec::new();
        let mut i: usize = 0;
        while i < self.leaderboard.nuggets.len()
            invariant
                0 <= i <= self.leaderboard.nuggets@.len(),
                leaderboard@ == self.leaderboard.nuggets@.subrange(0, i as int),
            decreases self.leaderboard.nuggets@.len() - i,
        {
            leaderboard.push(self.leaderboard.nuggets[i]);
            i += 1;
            assert(leaderboard@ =~= self.leaderboard.nuggets@.subrange(0, i as int));
        }
        assert(leaderboard@ =~= self.leaderboard.nuggets@);
        QueryState {
            total: self.total,
            counter: self.counter,
            treasure: self.treasure,
            cash: self.cash,
            leaderboard,
        }
    }

    /// The account with id `pid`, if any.
    pub fn player(&self, pid: &[u64; 2]) -> (r: Option<&GamePlayer>)
        ensures
            r is Some <==> self@.players.contains_key(pid_key(*pid)),
            r matches Some(p) ==> p.view() == self@.players[pid_key(*pid)],
    {
        let k = player_key(pid);
        self.players.get(&k)
    }

    /// The item with id `id`, if any.
    pub fn nugget(&self, id: u64) -> (r: Option<NuggetInfo>)
        ensures
            r is Some <==> self@.nuggets.contains_key(id),
            r matches Some(n) ==> n == self@.nuggets[id],
    {
        match self.nuggets.get(&id) {
            Some(n) => Some(*n),
            None => None,
        }
    }

    /// The listing with id `mid`, if any.
    pub fn market(&self, mid: u64) -> (r: Option<MarketNugget>)
        ensures
            r is Some <==> self@.markets.contains_key(mid),
            r matches Some(m) ==> m == self@.markets[mid],
    {
        match self.markets.get(&mid) {
            Some(m) => Some(*m),
            None => None,
        }
    }

    /// Stores item `n` under `id`.
    pub fn put_nugget(&mut self, id: u64, n: NuggetInfo)
        ensures
            final(self)@ == (StateView { nuggets: old(self)@.nuggets.insert(id, n), ..old(self)@ }),
    {
        self.nuggets.insert(id, n);
    }

    /// Stores listing `m` under `mid`.
    pub fn put_market(&mut self, mid: u64, m: MarketNugget)
        ensures
            final(self)@ == (StateView { markets: old(self)@.markets.insert(mid, m), ..old(self)@ }),
    {
        self.markets.insert(mid, m);
    }

    /// Adds a fresh account for `pid`.
    pub fn add_player(&mut self, pid: [u64; 2])
        ensures
            final(self)@ == (StateView {
                players: old(self)@.players.insert(pid_key(pid), new_player_view()),
                ..old(self)@
            }),
    {
        let k = player_key(&pid);
        let p = GamePlayer::new_from_pid(pid);
        let ghost pv = p.view();
        assert(pv == new_player_view());
        self.players.insert(k, p);
        assert(players_view(self.players@) =~= players_view(old(self).players@).insert(k, pv));
    }

    fn take_player(&mut self, k: u128) -> (p: GamePlayer)
        requires
            old(self)@.players.contains_key(k),
        ensures
            p.view() == old(self)@.players[k],
            final(self).players@ == old(self).players@.remove(k),
            final(self)@.total == old(self)@.total,
            final(self)@.counter == old(self)@.counter,
            final(self)@.txsize == old(self)@.txsize,
            final(self)@.treasure == old(self)@.treasure,
            final(self)@.cash == old(self)@.cash,
            final(self)@.leaderboard == old(self)@.leaderboard,
            final(self)@.nuggets == old(self)@.nuggets,
            final(self)@.markets == old(self)@.markets,
            final(self)@.settlements == old(self)@.settlements,
            final(self)@.admin == old(self)@.admin,
            final(self)@.deal_delay == old(self)@.deal_delay,
    {
        let p = self.players.remove(&k);
        match p {
            Some(p) => p,
            None => {
                assert(false);
                GamePlayer::new_from_pid([0, 0])
            },
        }
    }

    /// Credits `amount` to account `k`, saturating.
    pub fn credit_player(&mut self, k: u128, amount: u64)
        requires
            old(self)@.players.contains_key(k),
        ensures
            final(self)@ == (StateView { players: credit(old(self)@.players, k, amount), ..old(self)@ }),
    {
        let ghost m = self.players@;
        let mut p = self.take_player(k);
        p.data.inc_balance(amount);
        self.players.insert(k, p);
        proof {
            lemma_players_insert(m, k, p);
            assert(p.view() == credit(old(self)@.players, k, amount)[k]);
        }
    }

    /// Debits `amount` from account `k`, which holds at least that much.
    pub fn debit_player(&mut self, k: u128, amount: u64)
        requires
            old(self)@.players.contains_key(k),
            old(self)@.players[k].balance >= amount,
        ensures
            final(self)@ == (StateView { players: debit(old(self)@.players, k, amount), ..old(self)@ }),
    {
        let ghost m = self.players@;
        let mut p = self.take_player(k);
        p.data.balance = p.data.balance - amount;
        self.players.insert(k, p);
        proof {
            lemma_players_insert(m, k, p);
            assert(p.view() == debit(old(self)@.players, k, amount)[k]);
        }
    }

    /// Puts item `id` into the inventory of account `k`.
    pub fn give_item(&mut self, k: u128, id: u64)
        requires
            old(self)@.players.contains_key(k),
        ensures
            final(self)@ == (StateView { players: give(old(self)@.players, k, id), ..old(self)@ }),
    {
        let ghost m = self.players@;
        let mut p = self.take_player(k);
        p.data.inventory.push(id);
        self.players.insert(k, p);
        proof {
            lemma_players_insert(m, k, p);
            assert(p.view() == give(old(self)@.players, k, id)[k]);
        }
    }

    /// Takes item `id` out of the inventory of account `k`, which holds it.
    pub fn take_item(&mut self, k: u128, id: u64)
        requires
            old(self)@.players.contains_key(k),
            old(self)@.players[k].inventory.contains(id),
        ensures
            final(self)@ == (StateView { players: take(old(self)@.players, k, id), ..old(self)@ }),
    {
        let ghost m = self.players@;
        let mut p = self.take_player(k);
        let r = p.data.remove_item(id);
        self.players.insert(k, p);
        proof {
            let s = old(self)@.players[k].inventory;
            let i = choose|i: int| is_first_index(s, id, i) && p.data.inventory@ == swap_removed(s, i);
            assert(first_index(s, id) == i);
            lemma_players_insert(m, k, p);
            assert(p.view() == take(old(self)@.players, k, id)[k]);
        }
    }

    /// Moves the nonce of account `k` on by one.
    pub fn bump_nonce(&mut self, k: u128)
        requires
            old(self)@.players.contains_key(k),
            old(self)@.players[k].nonce < u64::MAX,
        ensures
            final(self)@ == (StateView { players: bump(old(self)@.players, k), ..old(self)@ }),
    {
        let ghost m = self.players@;
        let mut p = self.take_player(k);
        p.nonce = p.nonce + 1;
        self.players.insert(k, p);
        proof {
            lemma_players_insert(m, k, p);
            assert(p.view() == bump(old(self)@.players, k)[k]);
        }
    }
}

pub const TICK: u64 = 0;
pub const INSTALL_PLAYER: u64 = 1;
pub const WITHDRAW: u64 = 2;
pub const DEPOSIT: u64 = 3;
pub const EXPLORE_NUGGET: u64 = 4;
pub const SELL_NUGGET: u64 = 5;
pub const BID_NUGGET: u64 = 6;
pub const CREATE_NUGGET: u64 = 7;
pub const RECYCLE_NUGGET: u64 = 8;
pub const LIST_NUGGET: u64 = 9;

/// The command that a parameter vector carries: the low byte of the first word is the
/// opcode, the other words its arguments. `None` for an unknown opcode, missing
/// arguments, or a deposit of a token other than the first.
pub open spec fn decode_spec(p: Seq<u64>) -> Option<Command> {
    let op = p[0] & 0xff;
    if p.len() < 1 {
        None
    } else if op == WITHDRAW {
        if p.len() < 5 {
            None
        } else {
            Some(Command::Withdraw(Withdraw { data: [p[2], p[3], p[4]] }))
        }
    } else if op == DEPOSIT {
        if p.len() < 5 || p[3] != 0 {
            None
        } else {
            Some(Command::Deposit(Deposit { data: [p[1], p[2], p[4]] }))
        }
    } else if op == INSTALL_PLAYER {
        Some(Command::InstallPlayer)
    } else if op == EXPLORE_NUGGET || op == SELL_NUGGET || op == RECYCLE_NUGGET {
        if p.len() < 2 {
            None
        } else if op == EXPLORE_NUGGET {
            Some(Command::Activity(Activity::Explore(p[1])))
        } else if op == SELL_NUGGET {
            Some(Command::Activity(Activity::Sell(p[1])))
        } else {
            Some(Command::Activity(Activity::Recycle(p[1])))
        }
    } else if op == LIST_NUGGET || op == BID_NUGGET {
        if p.len() < 3 {
            None
        } else if op == LIST_NUGGET {
            Some(Command::Activity(Activity::List(p[1], p[2])))
        } else {
            Some(Command::Activity(Activity::Bid(p[1], p[2])))
        }
    } else if op == CREATE_NUGGET {
        Some(Command::Activity(Activity::Create))
    } else if op == TICK {
        Some(Command::Tick)
    } else {
        None
    }
}

/// Two public keys are the same.
pub open spec fn same_key(a: [u64; 4], b: [u64; 4]) -> bool {
    a[0] == b[0] && a[1] == b[1] && a[2] == b[2] && a[3] == b[3]
}

/// Outcome of installing the account of `pkey`.
pub open spec fn create_player_spec(s: StateView, pkey: [u64; 4]) -> (Result<(), u32>, StateView) {
    let k = pid_key(pid_of(pkey));
    if s.players.contains_key(k) {
        (Err(ERROR_PLAYER_ALREADY_EXIST), s)
    } else {
        (Ok(()), StateView { players: s.players.insert(k, new_player_view()), ..s })
    }
}

/// Outcome code of a result: zero for success.
pub open spec fn result_code(r: Result<(), u32>) -> u32 {
    match r {
        Ok(_) => 0,
        Err(e) => e,
    }
}

/// Result and state of running command `cmd`, signed by `pkey` with `nonce`.
pub open spec fn command_spec(s: StateView, cmd: Command, nonce: u64, pkey: [u64; 4], rand: [u64; 4]) -> (Result<(), u32>, StateView) {
    let pid = pid_of(pkey);
    match cmd {
        Command::Tick => if !same_key(pkey, s.admin) {
            (Err(ERROR_NOT_ADMIN), s)
        } else {
            (Ok(()), StateView { counter: (s.counter + 1) as u64, ..s })
        },
        Command::InstallPlayer => create_player_spec(s, pkey),
        Command::Withdraw(w) => w.handle_spec(s, pid, nonce, rand),
        Command::Activity(a) => a.handle_spec(s, pid, nonce, rand),
        Command::Deposit(d) => if !same_key(pkey, s.admin) {
            (Err(ERROR_NOT_ADMIN), s)
        } else {
            d.handle_spec(s, pid, nonce, rand)
        },
    }
}

/// Outcome code and state of processing one transaction: a success other than a tick
/// also counts one more transaction.
pub open spec fn process_spec(s: StateView, cmd: Command, nonce: u64, pkey: [u64; 4], rand: [u64; 4]) -> (u32, StateView) {
    let (r, s1) = command_spec(s, cmd, nonce, pkey, rand);
    if r is Ok && !(cmd is Tick) {
        (0, StateView { txsize: credited(s1.txsize, 1), ..s1 })
    } else {
        (result_code(r), s1)
    }
}

/// One decoded command with the nonce it was signed with.
pub struct Transaction {
    pub command: Command,
    pub nonce: u64,
}

impl Transaction {
    /// Label of an error code.
    pub fn decode_error(e: u32) -> (r: &'static str)
        ensures
            r@ == error_label(e),
    {
        decode_error(e)
    }

    /// Reads a transaction from its parameter words; the nonce is the first word
    /// shifted past its low sixteen bits.
    pub fn decode(params: &[u64]) -> (r: Option<Self>)
        ensures
            r is Some <==> decode_spec(params@) is Some,
            r matches Some(t) ==> Some(t.command) == decode_spec(params@) && t.nonce == params@[0]
                >> 16u64,
    {
        if params.len() < 1 {
            return None;
        }
        let op = params[0] & 0xff;
        let nonce = params[0] >> 16u64;
        let n = params.len();
        let command = if op == WITHDRAW {
            if n < 5 {
                return None;
            }
            Command::Withdraw(Withdraw { data: [params[2], params[3], params[4]] })
        } else if op == DEPOSIT {
            if n < 5 || params[3] != 0 {
                return None;
            }
            Command::Deposit(Deposit { data: [params[1], params[2], params[4]] })
        } else if op == INSTALL_PLAYER {
            Command::InstallPlayer
        } else if op == EXPLORE_NUGGET || op == SELL_NUGGET || op == RECYCLE_NUGGET {
            if n < 2 {
                return None;
            }
            if op == EXPLORE_NUGGET {
                Command::Activity(Activity::Explore(params[1]))
            } else if op == SELL_NUGGET {
                Command::Activity(Activity::Sell(params[1]))
            } else {
                Command::Activity(Activity::Recycle(params[1]))
            }
        } else if op == LIST_NUGGET || op == BID_NUGGET {
            if n < 3 {
                return None;
            }
            if op == LIST_NUGGET {
                Command::Activity(Activity::List(params[1], params[2]))
            } else {
                Command::Activity(Activity::Bid(params[1], params[2]))
            }
        } else if op == CREATE_NUGGET {
            Command::Activity(Activity::Create)
        } else if op == TICK {
            Command::Tick
        } else {
            return None;
        };
        Some(Transaction { command, nonce })
    }

    /// Installs the account of `pkey`; fails if it exists.
    pub fn create_player(&self, state: &mut GlobalState, pkey: &[u64; 4]) -> (r: Result<(), u32>)
        ensures
            (r, final(state)@) == create_player_spec(old(state)@, *pkey),
    {
        let pid = pkey_to_pid(pkey);
        if state.player(&pid).is_some() {
            return Err(ERROR_PLAYER_ALREADY_EXIST);
        }
        state.add_player(pid);
        Ok(())
    }

    /// Advances the logical clock.
    pub fn tick(&self, state: &mut GlobalState)
        requires
            old(state)@.counter < u64::MAX,
        ensures
            final(state)@ == (StateView { counter: (old(state)@.counter + 1) as u64, ..old(state)@ }),
    {
        state.counter = state.counter + 1;
    }

    /// Counts one more successful transaction.
    pub fn inc_tx_number(&self, state: &mut GlobalState)
        ensures
            final(state)@ == (StateView { txsize: credited(old(state)@.txsize, 1), ..old(state)@ }),
    {
        state.txsize = state.txsize.saturating_add(1);
    }

    /// Runs the command signed by `pkey`: admin-only commands need the admin key.
    fn run(&self, state: &mut GlobalState, pkey: &[u64; 4], rand: &[u64; 4]) -> (r: Result<(), u32>)
        requires
            old(state)@.total < u64::MAX,
            old(state)@.counter < u64::MAX,
        ensures
            (r, final(state)@) == command_spec(old(state)@, self.command, self.nonce, *pkey, *rand),
    {
        let pid = pkey_to_pid(pkey);
        let admin = pkey[0] == state.admin[0] && pkey[1] == state.admin[1] && pkey[2] == state.admin[2]
            && pkey[3] == state.admin[3];
        match self.command {
            Command::Tick => {
                if !admin {
                    return Err(ERROR_NOT_ADMIN);
                }
                self.tick(state);
                Ok(())
            },
            Command::InstallPlayer => self.create_player(state, pkey),
            Command::Withdraw(cmd) => cmd.handle(state, &pid, self.nonce, rand),
            Command::Activity(cmd) => cmd.handle(state, &pid, self.nonce, rand),
            Command::Deposit(cmd) => {
                if !admin {
                    return Err(ERROR_NOT_ADMIN);
                }
                cmd.handle(state, &pid, self.nonce, rand)
            },
        }
    }

    /// Processes the transaction signed by `pkey` and gives its outcome code (zero for
    /// success) and the number of successful transactions since the last preemption.
    pub fn process(&self, state: &mut GlobalState, pkey: &[u64; 4], rand: &[u64; 4]) -> (r: Vec<u64>)
        requires
            old(state)@.total < u64::MAX,
            old(state)@.counter < u64::MAX,
        ensures
            final(state)@ == process_spec(old(state)@, self.command, self.nonce, *pkey, *rand).1,
            r@ == seq![
                process_spec(old(state)@, self.command, self.nonce, *pkey, *rand).0 as u64,
                final(state)@.txsize,
            ],
    {
        let r = self.run(state, pkey, rand);
        let code: u32 = match r {
            Ok(()) => {
                match self.command {
                    Command::Tick => {},
                    _ => self.inc_tx_number(state),
                }
                0
            },
            Err(e) => e,
        };
        let mut out: Vec<u64> = Vec::new();
        out.push(code as u64);
        out.push(state.txsize);
        out
    }
}

/// A command that an account signs with its nonce.
pub open spec fn is_signed(cmd: Command) -> bool {
    cmd is Activity || cmd is Withdraw || cmd is Deposit
}

/// A signed command is accepted only with the account's current nonce, which then grows
/// by exactly one; so a second command with the same nonce from the same key fails.
pub proof fn lemma_nonce_single_use(
    s: StateView,
    first: Command,
    second: Command,
    nonce: u64,
    pkey: [u64; 4],
    rand1: [u64; 4],
    rand2: [u64; 4],
)
    requires
        is_signed(first),
        is_signed(second),
        process_spec(s, first, nonce, pkey, rand1).0 == 0,
    ensures
        ({
            let k = pid_key(pid_of(pkey));
            let t = process_spec(s, first, nonce, pkey, rand1).1;
            &&& s.players.contains_key(k)
            &&& s.players[k].nonce == nonce
            &&& t.players.contains_key(k)
            &&& t.players[k].nonce == nonce + 1
            &&& process_spec(t, second, nonce, pkey, rand2).0 != 0
        }),
{
    let k = pid_key(pid_of(pkey));
    let t = process_spec(s, first, nonce, pkey, rand1).1;
    assert(t.players.contains_key(k) && t.players[k].nonce == nonce + 1);
}

/// Items and listings agree: every item sits under its own id, ids stay below the
/// counter, a listed item names a live listing of itself, and a live listing's item
/// names that listing.
pub open spec fn listings_consistent(s: StateView) -> bool {
    &&& forall|id: u64| #[trigger] s.nuggets.contains_key(id) ==> id < s.total && s.nuggets[id].id == id
    &&& forall|mid: u64| #[trigger] s.markets.contains_key(mid) ==> mid < s.total
    &&& forall|id: u64|
        #[trigger] s.nuggets.contains_key(id) && s.nuggets[id].marketid != 0 ==> {
            &&& s.markets.contains_key(s.nuggets[id].marketid)
            &&& s.markets[s.nuggets[id].marketid].object.id == id
            &&& s.markets[s.nuggets[id].marketid].settleinfo != 2
        }
    &&& forall|mid: u64|
        #[trigger] s.markets.contains_key(mid) && s.markets[mid].settleinfo != 2 ==> {
            &&& mid != 0
            &&& s.nuggets.contains_key(s.markets[mid].object.id)
            &&& s.nuggets[s.markets[mid].object.id].marketid == mid
        }
}

/// A new game is consistent.
pub proof fn lemma_initial_consistent(admin: [u64; 4], deal_delay: u64)
    ensures
        listings_consistent(initial_view(admin, deal_delay)),
{
}

/// Every processed transaction keeps items and listings consistent.
pub proof fn lemma_process_keeps_listings_consistent(
    s: StateView,
    cmd: Command,
    nonce: u64,
    pkey: [u64; 4],
    rand: [u64; 4],
)
    requires
        listings_consistent(s),
        s.total < u64::MAX,
    ensures
        listings_consistent(process_spec(s, cmd, nonce, pkey, rand).1),
{
    let pid = pid_of(pkey);
    match cmd {
        Command::Activity(a) => {
            if nonce_error(s, pid, nonce) is None {
                let s1 = bumped(s, pid);
                assert(listings_consistent(s1));
                lemma_activity_keeps_listings_consistent(s1, pid, a, rand);
            }
        },
        _ => {},
    }
}

proof fn lemma_activity_keeps_listings_consistent(s: StateView, pid: [u64; 2], a: Activity, rand: [u64; 4])
    requires
        listings_consistent(s),
        s.total < u64::MAX,
    ensures
        listings_consistent(activity_spec(s, pid, a, rand).1),
{
    match a {
        Activity::Create => {
            if create_error(s, pid) is None {
                let t = create_post(s, pid, rand[1]);
                assert forall|mid: u64|
                    #[trigger] t.markets.contains_key(mid) && t.markets[mid].settleinfo != 2 implies {
                    &&& mid != 0
                    &&& t.nuggets.contains_key(t.markets[mid].object.id)
                    &&& t.nuggets[t.markets[mid].object.id].marketid == mid
                } by {
                    assert(s.markets[mid].object.id != s.total);
                }
            }
        },
        Activity::Explore(index) => {
            if explore_error(s, pid, index) is None {
                let id = held_id(s, pid, index);
                let t = explore_post(s, pid, index, rand[2]);
                assert forall|mid: u64|
                    #[trigger] t.markets.contains_key(mid) && t.markets[mid].settleinfo != 2 implies {
                    &&& mid != 0
                    &&& t.nuggets.contains_key(t.markets[mid].object.id)
                    &&& t.nuggets[t.markets[mid].object.id].marketid == mid
                } by {
                    assert(s.markets[mid].object.id != id);
                }
            }
        },
        Activity::Recycle(index) => {},
        Activity::List(index, askprice) => {
            let k = pid_key(pid);
            if s.players.contains_key(k) && index < s.players[k].inventory.len() {
                lemma_list_keeps_listings_consistent(s, pid, held_id(s, pid, index), askprice);
            }
        },
        Activity::Sell(mid) => {
            lemma_settle_keeps_listings_consistent(s, pid, mid);
        },
        Activity::Bid(mid, price) => {
            lemma_bid_keeps_listings_consistent(s, pid, mid, price);
        },
    }
}

proof fn lemma_list_keeps_listings_consistent(s: StateView, pid: [u64; 2], oid: u64, askprice: u64)
    requires
        listings_consistent(s),
        s.total < u64::MAX,
    ensures
        listings_consistent(list_spec(s, pid, oid, askprice).1),
{
    if list_error(s, pid, oid) is None {
        let t = list_post(s, pid, oid, askprice);
        let mid = s.total;
        assert(!s.markets.contains_key(mid));
        assert forall|id: u64|
            #[trigger] t.nuggets.contains_key(id) && t.nuggets[id].marketid != 0 implies {
            &&& t.markets.contains_key(t.nuggets[id].marketid)
            &&& t.markets[t.nuggets[id].marketid].object.id == id
            &&& t.markets[t.nuggets[id].marketid].settleinfo != 2
        } by {
            if id != oid {
                assert(s.nuggets[id].marketid != mid);
            }
        }
        assert forall|m: u64|
            #[trigger] t.markets.contains_key(m) && t.markets[m].settleinfo != 2 implies {
            &&& m != 0
            &&& t.nuggets.contains_key(t.markets[m].object.id)
            &&& t.nuggets[t.markets[m].object.id].marketid == m
        } by {
            if m != mid {
                assert(s.markets[m].object.id != oid);
            }
        }
    }
}

proof fn lemma_bid_keeps_listings_consistent(s: StateView, pid: [u64; 2], mid: u64, price: u64)
    requires
        listings_consistent(s),
    ensures
        listings_consistent(bid_spec(s, pid, mid, price).1),
{
    if bid_error(s, pid, mid, price) is None {
        let t = bid_post(s, pid, mid, price);
        let m = s.markets[mid];
        lemma_bid_tag_odd(s.counter);
        assert forall|id: u64|
            #[trigger] t.nuggets.contains_key(id) && t.nuggets[id].marketid != 0 implies {
            &&& t.markets.contains_key(t.nuggets[id].marketid)
            &&& t.markets[t.nuggets[id].marketid].object.id == id
            &&& t.markets[t.nuggets[id].marketid].settleinfo != 2
        } by {
            if id != m.object.id {
                assert(s.nuggets[id].marketid != mid);
            }
        }
        assert forall|x: u64|
            #[trigger] t.markets.contains_key(x) && t.markets[x].settleinfo != 2 implies {
            &&& x != 0
            &&& t.nuggets.contains_key(t.markets[x].object.id)
            &&& t.nuggets[t.markets[x].object.id].marketid == x
        } by {
            if x != mid {
                assert(s.markets[x].object.id != m.object.id);
            }
        }
    }
}

proof fn lemma_settle_keeps_listings_consistent(s: StateView, pid: [u64; 2], mid: u64)
    requires
        listings_consistent(s),
    ensures
        listings_consistent(settle_spec(s, pid, mid).1),
{
    if settle_error(s, pid, mid) is None {
        let t = settle_post(s, mid);
        let m = s.markets[mid];
        assert forall|id: u64|
            #[trigger] t.nuggets.contains_key(id) && t.nuggets[id].marketid != 0 implies {
            &&& t.markets.contains_key(t.nuggets[id].marketid)
            &&& t.markets[t.nuggets[id].marketid].object.id == id
            &&& t.markets[t.nuggets[id].marketid].settleinfo != 2
        } by {
            if id != m.object.id {
                assert(s.nuggets[id].marketid != mid);
            }
        }
        assert forall|x: u64|
            #[trigger] t.markets.contains_key(x) && t.markets[x].settleinfo != 2 implies {
            &&& x != 0
            &&& t.nuggets.contains_key(t.markets[x].object.id)
            &&& t.nuggets[t.markets[x].object.id].marketid == x
        } by {
            if x != mid {
                assert(s.markets[x].object.id != m.object.id);
            }
        }
    }
}

/// Account `k` holds something at position `i`.
pub open spec fn holds_at(s: StateView, k: u128, i: int) -> bool {
    s.players.contains_key(k) && 0 <= i < s.players[k].inventory.len()
}

/// The item that account `k` holds at position `i`.
pub open spec fn held_at(s: StateView, k: u128, i: int) -> u64 {
    s.players[k].inventory[i]
}

/// Every held item exists and is not listed, and no item is held twice.
pub open spec fn holdings_consistent(s: StateView) -> bool {
    &&& forall|k: u128, i: int|
        holds_at(s, k, i) ==> s.nuggets.contains_key(#[trigger] held_at(s, k, i)) && s.nuggets[held_at(
            s,
            k,
            i,
        )].marketid == 0
    &&& forall|k1: u128, i1: int, k2: u128, i2: int|
        holds_at(s, k1, i1) && holds_at(s, k2, i2) && #[trigger] held_at(s, k1, i1) == #[trigger] held_at(
            s,
            k2,
            i2,
        ) ==> k1 == k2 && i1 == i2
}

/// Position in the old inventory of `kk` that position `i` of account `k` comes from,
/// after the item at `p` was taken out of an inventory of length `n`.
spec fn origin(kk: u128, p: int, n: int, k: u128, i: int) -> int {
    if k == kk && i == p {
        n - 1
    } else {
        i
    }
}

proof fn lemma_holdings_frame(s: StateView, t: StateView)
    requires
        holdings_consistent(s),
        t.players.dom() == s.players.dom(),
        forall|k: u128| #[trigger] s.players.contains_key(k) ==> t.players[k].inventory == s.players[k].inventory,
        forall|k: u128, i: int|
            holds_at(s, k, i) ==> t.nuggets.contains_key(#[trigger] held_at(s, k, i)) && t.nuggets[held_at(
                s,
                k,
                i,
            )].marketid == 0,
    ensures
        holdings_consistent(t),
{
    assert forall|k: u128, i: int| holds_at(t, k, i) implies t.nuggets.contains_key(#[trigger] held_at(t, k, i))
        && t.nuggets[held_at(t, k, i)].marketid == 0 by {
        assert(s.players.contains_key(k));
        assert(held_at(t, k, i) == held_at(s, k, i));
    }
    assert forall|k1: u128, i1: int, k2: u128, i2: int|
        holds_at(t, k1, i1) && holds_at(t, k2, i2) && #[trigger] held_at(t, k1, i1) == #[trigger] held_at(
            t,
            k2,
            i2,
        ) implies k1 == k2 && i1 == i2 by {
        assert(s.players.contains_key(k1) && s.players.contains_key(k2));
        assert(held_at(t, k1, i1) == held_at(s, k1, i1));
        assert(held_at(t, k2, i2) == held_at(s, k2, i2));
    }
}

proof fn lemma_holdings_push(s: StateView, t: StateView, kk: u128, x: u64)
    requires
        holdings_consistent(s),
        s.players.contains_key(kk),
        t.players.dom() == s.players.dom(),
        forall|k: u128| #[trigger] s.players.contains_key(k) && k != kk ==> t.players[k].inventory == s.players[k].inventory,
        t.players[kk].inventory == s.players[kk].inventory.push(x),
        forall|k: u128, i: int| holds_at(s, k, i) ==> #[trigger] held_at(s, k, i) != x,
        t.nuggets.contains_key(x) && t.nuggets[x].marketid == 0,
        forall|k: u128, i: int|
            holds_at(s, k, i) ==> t.nuggets.contains_key(#[trigger] held_at(s, k, i)) && t.nuggets[held_at(
                s,
                k,
                i,
            )].marketid == 0,
    ensures
        holdings_consistent(t),
{
    let n = s.players[kk].inventory.len() as int;
    assert forall|k: u128, i: int| holds_at(t, k, i) implies t.nuggets.contains_key(#[trigger] held_at(t, k, i))
        && t.nuggets[held_at(t, k, i)].marketid == 0 by {
        if !(k == kk && i == n) {
            assert(holds_at(s, k, i));
            assert(held_at(t, k, i) == held_at(s, k, i));
        }
    }
    assert forall|k1: u128, i1: int, k2: u128, i2: int|
        holds_at(t, k1, i1) && holds_at(t, k2, i2) && #[trigger] held_at(t, k1, i1) == #[trigger] held_at(
            t,
            k2,
            i2,
        ) implies k1 == k2 && i1 == i2 by {
        let new1 = k1 == kk && i1 == n;
        let new2 = k2 == kk && i2 == n;
        if !new1 {
            assert(holds_at(s, k1, i1));
            assert(held_at(t, k1, i1) == held_at(s, k1, i1));
        }
        if !new2 {
            assert(holds_at(s, k2, i2));
            assert(held_at(t, k2, i2) == held_at(s, k2, i2));
        }
    }
}

proof fn lemma_holdings_remove(s: StateView, t: StateView, kk: u128, p: int)
    requires
        holdings_consistent(s),
        holds_at(s, kk, p),
        t.players.dom() == s.players.dom(),
        forall|k: u128| #[trigger] s.players.contains_key(k) && k != kk ==> t.players[k].inventory == s.players[k].inventory,
        t.players[kk].inventory == swap_removed(s.players[kk].inventory, p),
        forall|k: u128, i: int|
            holds_at(s, k, i) && !(k == kk && i == p) ==> t.nuggets.contains_key(#[trigger] held_at(s, k, i))
                && t.nuggets[held_at(s, k, i)].marketid == 0,
    ensures
        holdings_consistent(t),
{
    let n = s.players[kk].inventory.len() as int;
    assert forall|k: u128, i: int| #[trigger] holds_at(t, k, i) implies {
        let o = origin(kk, p, n, k, i);
        &&& holds_at(s, k, o)
        &&& !(k == kk && o == p)
        &&& held_at(t, k, i) == held_at(s, k, o)
    } by {
        assert(s.players.contains_key(k));
    }
    assert forall|k: u128, i: int| holds_at(t, k, i) implies t.nuggets.contains_key(#[trigger] held_at(t, k, i))
        && t.nuggets[held_at(t, k, i)].marketid == 0 by {
        let o = origin(kk, p, n, k, i);
        assert(holds_at(t, k, i));
        assert(held_at(s, k, o) == held_at(t, k, i));
    }
    assert forall|k1: u128, i1: int, k2: u128, i2: int|
        holds_at(t, k1, i1) && holds_at(t, k2, i2) && #[trigger] held_at(t, k1, i1) == #[trigger] held_at(
            t,
            k2,
            i2,
        ) implies k1 == k2 && i1 == i2 by {
        let o1 = origin(kk, p, n, k1, i1);
        let o2 = origin(kk, p, n, k2, i2);
        assert(holds_at(t, k1, i1));
        assert(holds_at(t, k2, i2));
        assert(held_at(s, k1, o1) == held_at(s, k2, o2));
    }
}

/// Processed transactions keep every held item existing and unlisted, and never let
/// two inventory slots hold the same item.
pub proof fn lemma_process_keeps_holdings_consistent(
    s: StateView,
    cmd: Command,
    nonce: u64,
    pkey: [u64; 4],
    rand: [u64; 4],
)
    requires
        holdings_consistent(s),
        listings_consistent(s),
        s.total < u64::MAX,
    ensures
        holdings_consistent(process_spec(s, cmd, nonce, pkey, rand).1),
{
    let pid = pid_of(pkey);
    let (r, s1) = command_spec(s, cmd, nonce, pkey, rand);
    match cmd {
        Command::Tick => {
            if same_key(pkey, s.admin) {
                lemma_holdings_frame(s, s1);
            }
        },
        Command::InstallPlayer => {
            let k = pid_key(pid);
            if !s.players.contains_key(k) {
                lemma_holdings_new_account(s, s1, k);
            }
        },
        Command::Withdraw(w) => {
            if nonce_error(s, pid, nonce) is None {
                let t = bumped(s, pid);
                lemma_bumped_holdings(s, pid);
                if withdraw_error(t, pid, w.data) is None {
                    assert(withdraw_post(t, pid, w.data).players.dom() =~= t.players.dom());
                    lemma_holdings_frame(t, withdraw_post(t, pid, w.data));
                }
            }
        },
        Command::Deposit(d) => {
            if nonce_error(s, pid, nonce) is None {
                let t = bumped(s, pid);
                lemma_bumped_holdings(s, pid);
                if t.players.contains_key(pid_key(deposit_target(d.data))) {
                    assert(deposit_post(t, d.data).players.dom() =~= t.players.dom());
                    lemma_holdings_frame(t, deposit_post(t, d.data));
                }
            }
        },
        Command::Activity(a) => {
            if nonce_error(s, pid, nonce) is None {
                let t = bumped(s, pid);
                lemma_bumped_holdings(s, pid);
                assert(listings_consistent(t));
                lemma_activity_keeps_holdings_consistent(t, pid, a, rand);
            }
        },
    }
    assert(holdings_consistent(s1));
    lemma_holdings_frame(s1, process_spec(s, cmd, nonce, pkey, rand).1);
}

proof fn lemma_holdings_new_account(s: StateView, t: StateView, kk: u128)
    requires
        holdings_consistent(s),
        !s.players.contains_key(kk),
        t.players == s.players.insert(kk, new_player_view()),
        t.nuggets == s.nuggets,
    ensures
        holdings_consistent(t),
{
    assert forall|k: u128, i: int| #[trigger] holds_at(t, k, i) implies holds_at(s, k, i) && held_at(t, k, i)
        == held_at(s, k, i) by {}
    assert forall|k: u128, i: int| holds_at(t, k, i) implies t.nuggets.contains_key(#[trigger] held_at(t, k, i))
        && t.nuggets[held_at(t, k, i)].marketid == 0 by {
        assert(holds_at(t, k, i));
    }
    assert forall|k1: u128, i1: int, k2: u128, i2: int|
        holds_at(t, k1, i1) && holds_at(t, k2, i2) && #[trigger] held_at(t, k1, i1) == #[trigger] held_at(
            t,
            k2,
            i2,
        ) implies k1 == k2 && i1 == i2 by {
        assert(holds_at(t, k1, i1));
        assert(holds_at(t, k2, i2));
        assert(held_at(s, k1, i1) == held_at(s, k2, i2));
    }
}

proof fn lemma_bumped_holdings(s: StateView, pid: [u64; 2])
    requires
        holdings_consistent(s),
        s.players.contains_key(pid_key(pid)),
    ensures
        holdings_consistent(bumped(s, pid)),
{
    let t = bumped(s, pid);
    assert(t.players.dom() =~= s.players.dom());
    lemma_holdings_frame(s, t);
}

/// The first copy of a held item is where it is held.
proof fn lemma_first_index_is_held(s: StateView, k: u128, index: int)
    requires
        holdings_consistent(s),
        holds_at(s, k, index),
    ensures
        first_index(s.players[k].inventory, held_at(s, k, index)) == index,
{
    let q = s.players[k].inventory;
    let id = held_at(s, k, index);
    assert forall|j: int| 0 <= j < index implies q[j] != id by {
        assert(holds_at(s, k, j));
        assert(held_at(s, k, j) == q[j]);
    }
    assert(is_first_index(q, id, index));
}

proof fn lemma_activity_keeps_holdings_consistent(s: StateView, pid: [u64; 2], a: Activity, rand: [u64; 4])
    requires
        holdings_consistent(s),
        listings_consistent(s),
        s.total < u64::MAX,
    ensures
        holdings_consistent(activity_spec(s, pid, a, rand).1),
{
    let k = pid_key(pid);
    match a {
        Activity::Create => {
            if create_error(s, pid) is None {
                let t = create_post(s, pid, rand[1]);
                assert(t.players.dom() =~= s.players.dom());
                assert forall|k2: u128, i: int| holds_at(s, k2, i) implies #[trigger] held_at(s, k2, i) != s.total by {
                    assert(s.nuggets.contains_key(held_at(s, k2, i)));
                }
                lemma_holdings_push(s, t, k, s.total);
            }
        },
        Activity::Explore(index) => {
            if explore_error(s, pid, index) is None {
                let t = explore_post(s, pid, index, rand[2]);
                assert(t.players.dom() =~= s.players.dom());
                lemma_holdings_frame(s, t);
            }
        },
        Activity::Recycle(index) => {
            if recycle_error(s, pid, index) is None {
                let t = recycle_post(s, pid, index);
                assert(t.players.dom() =~= s.players.dom());
                lemma_first_index_is_held(s, k, index as int);
                lemma_holdings_remove(s, t, k, index as int);
            }
        },
        Activity::List(index, askprice) => {
            if s.players.contains_key(k) && index < s.players[k].inventory.len() {
                let oid = held_id(s, pid, index);
                if list_error(s, pid, oid) is None {
                    let t = list_post(s, pid, oid, askprice);
                    assert(t.players.dom() =~= s.players.dom());
                    lemma_first_index_is_held(s, k, index as int);
                    assert forall|k2: u128, i: int| holds_at(s, k2, i) && !(k2 == k && i == index) implies t.nuggets.contains_key(
                        #[trigger] held_at(s, k2, i),
                    ) && t.nuggets[held_at(s, k2, i)].marketid == 0 by {
                        assert(held_at(s, k2, i) != held_at(s, k, index as int));
                    }
                    lemma_holdings_remove(s, t, k, index as int);
                }
            }
        },
        Activity::Sell(mid) => {
            if settle_error(s, pid, mid) is None {
                let t = settle_post(s, mid);
                let m = s.markets[mid];
                let bk = pid_key(m.bid.unwrap().bidder);
                assert(t.players.dom() =~= s.players.dom());
                assert forall|k2: u128, i: int| holds_at(s, k2, i) implies #[trigger] held_at(s, k2, i) != m.object.id by {
                    assert(s.nuggets[m.object.id].marketid == mid);
                }
                lemma_holdings_push(s, t, bk, m.object.id);
            }
        },
        Activity::Bid(mid, price) => {
            if bid_error(s, pid, mid, price) is None {
                let t = bid_post(s, pid, mid, price);
                let m = s.markets[mid];
                assert(t.players.dom() =~= s.players.dom());
                if price >= m.askprice {
                    assert forall|k2: u128, i: int| holds_at(s, k2, i) implies #[trigger] held_at(s, k2, i) != m.object.id by {
                        assert(s.nuggets[m.object.id].marketid == mid);
                    }
                    lemma_holdings_push(s, t, k, m.object.id);
                } else {
                    lemma_holdings_frame(s, t);
                }
            }
        },
    }
}

} // verus!
