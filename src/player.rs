use vstd::prelude::*;
use crate::state::{new_player_view, pid_key, GlobalState, PlayerView};
use crate::error::{ERROR_INVALID_NONCE, INVALID_NUGGET_INDEX, PLAYER_NOT_ENOUGH_BALANCE, PLAYER_NOT_ENOUGH_INVENTORY};

verus! {

/// Inventory capacity of a new account.
pub const DEFAULT_INVENTORY_SIZE: u64 = 4;

/// Balance and owned items of one account.
pub struct PlayerData {
    pub balance: u64,
    pub inventory_size: u64,
    pub inventory: Vec<u64>,
}

impl Default for PlayerData {
    fn default() -> (r: Self)
        ensures
            r.balance == 0,
            r.inventory_size == DEFAULT_INVENTORY_SIZE,
            r.inventory@ == Seq::<u64>::empty(),
    {
        PlayerData { balance: 0, inventory_size: DEFAULT_INVENTORY_SIZE, inventory: Vec::new() }
    }
}

/// Balance after a credit: additions stop at the largest `u64`.
pub open spec fn credited(balance: u64, amount: u64) -> u64 {
    if balance + amount > u64::MAX {
        u64::MAX
    } else {
        (balance + amount) as u64
    }
}

/// A sequence with its element at `i` taken out: the last element moves into its place.
pub open spec fn swap_removed(s: Seq<u64>, i: int) -> Seq<u64> {
    s.update(i, s.last()).drop_last()
}

/// `i` is the first position that holds `id`.
pub open spec fn is_first_index(s: Seq<u64>, id: u64, i: int) -> bool {
    &&& 0 <= i < s.len()
    &&& s[i] == id
    &&& forall|j: int| 0 <= j < i ==> s[j] != id
}

impl PlayerData {
    /// The words that encode this account: balance, capacity, item count, then the items.
    pub open spec fn encode(&self) -> Seq<u64> {
        seq![self.balance, self.inventory_size, self.inventory@.len() as u64] + self.inventory@
    }

    /// Debits `amount`; fails, changing nothing, when the balance is smaller.
    pub fn cost_balance(&mut self, amount: u64) -> (r: Result<(), u32>)
        ensures
            r is Err <==> old(self).balance < amount,
            r matches Err(e) ==> e == PLAYER_NOT_ENOUGH_BALANCE,
            final(self).balance == (if r is Ok {
                (old(self).balance - amount) as u64
            } else {
                old(self).balance
            }),
            final(self).inventory_size == old(self).inventory_size,
            final(self).inventory@ == old(self).inventory@,
    {
        if self.balance < amount {
            Err(PLAYER_NOT_ENOUGH_BALANCE)
        } else {
            self.balance = self.balance - amount;
            Ok(())
        }
    }

    /// Credits `amount`, saturating at the largest `u64`.
    pub fn inc_balance(&mut self, amount: u64)
        ensures
            final(self).balance == credited(old(self).balance, amount),
            final(self).inventory_size == old(self).inventory_size,
            final(self).inventory@ == old(self).inventory@,
    {
        self.balance = self.balance.saturating_add(amount);
    }

    /// Whether one more item fits.
    pub fn has_room(&self) -> (r: bool)
        ensures
            r == (self.inventory@.len() < self.inventory_size),
    {
        (self.inventory.len() as u64) < self.inventory_size
    }

    /// Adds item `id`; fails, changing nothing, when the inventory is full.
    pub fn add_item(&mut self, id: u64) -> (r: Result<(), u32>)
        ensures
            r is Err <==> old(self).inventory@.len() >= old(self).inventory_size,
            r matches Err(e) ==> e == PLAYER_NOT_ENOUGH_INVENTORY,
            final(self).inventory@ == (if r is Ok {
                old(self).inventory@.push(id)
            } else {
                old(self).inventory@
            }),
            final(self).balance == old(self).balance,
            final(self).inventory_size == old(self).inventory_size,
    {
        if !self.has_room() {
            Err(PLAYER_NOT_ENOUGH_INVENTORY)
        } else {
            self.inventory.push(id);
            Ok(())
        }
    }

    /// Position of the first copy of `id` in the inventory.
    pub fn find_item(&self, id: u64) -> (r: Option<usize>)
        ensures
            r is None <==> !self.inventory@.contains(id),
            r matches Some(i) ==> is_first_index(self.inventory@, id, i as int),
    {
        let mut i: usize = 0;
        while i < self.inventory.len()
            invariant
                0 <= i <= self.inventory@.len(),
                forall|j: int| 0 <= j < i ==> self.inventory@[j] != id,
            decreases self.inventory@.len() - i,
        {
            if self.inventory[i] == id {
                return Some(i);
            }
            i += 1;
        }
        None
    }

    /// Removes item `id` by value; fails, changing nothing, when it is not held.
    pub fn remove_item(&mut self, id: u64) -> (r: Result<(), u32>)
        ensures
            r is Err <==> !old(self).inventory@.contains(id),
            r matches Err(e) ==> e == INVALID_NUGGET_INDEX,
            r is Err ==> final(self).inventory@ == old(self).inventory@,
            r is Ok ==> exists|i: int|
                is_first_index(old(self).inventory@, id, i) && final(self).inventory@
                    == swap_removed(old(self).inventory@, i),
            final(self).balance == old(self).balance,
            final(self).inventory_size == old(self).inventory_size,
    {
        match self.find_item(id) {
            None => Err(INVALID_NUGGET_INDEX),
            Some(i) => {
                self.inventory.swap_remove(i);
                assert(self.inventory@ == swap_removed(old(self).inventory@, i as int));
                Ok(())
            },
        }
    }

    /// Appends the encoding of this account.
    pub fn to_data(&self, data: &mut Vec<u64>)
        ensures
            final(data)@ == old(data)@ + self.encode(),
    {
        data.push(self.balance);
        data.push(self.inventory_size);
        data.push(self.inventory.len() as u64);
        let ghost head = data@;
        let mut i: usize = 0;
        while i < self.inventory.len()
            invariant
                0 <= i <= self.inventory@.len(),
                data@ == head + self.inventory@.subrange(0, i as int),
            decreases self.inventory@.len() - i,
        {
            data.push(self.inventory[i]);
            i += 1;
            assert(data@ =~= head + self.inventory@.subrange(0, i as int));
        }
        assert(self.inventory@.subrange(0, self.inventory@.len() as int) =~= self.inventory@);
        assert(data@ =~= old(data)@ + self.encode());
    }

    /// Reads an account from the words at `pos`; `None` when they run out. On
    /// success also gives the position after them.
    pub fn from_data(data: &Vec<u64>, pos: usize) -> (r: Option<(PlayerData, usize)>)
        ensures
            r is Some <==> pos + 3 <= data@.len() && pos + 3 + data@[pos + 2] <= data@.len(),
            r matches Some((p, next)) ==> {
                &&& next == pos + 3 + data@[pos + 2]
                &&& p.balance == data@[pos as int]
                &&& p.inventory_size == data@[pos + 1]
                &&& p.inventory@ == data@.subrange(pos + 3, next as int)
            },
    {
        if pos > data.len() || data.len() - pos < 3 {
            return None;
        }
        let n = data[pos + 2];
        if n > (data.len() - pos - 3) as u64 {
            return None;
        }
        let start: usize = pos + 3;
        let end: usize = start + n as usize;
        let mut inventory: Vec<u64> = Vec::new();
        let mut i: usize = start;
        while i < end
            invariant
                start <= i <= end <= data@.len(),
                inventory@ == data@.subrange(start as int, i as int),
            decreases end - i,
        {
            inventory.push(data[i]);
            i += 1;
            assert(inventory@ =~= data@.subrange(start as int, i as int));
        }
        Some((PlayerData { balance: data[pos], inventory_size: data[pos + 1], inventory }, end))
    }
}

/// An account: its id, the nonce its next command must carry, and its data.
pub struct GamePlayer {
    pub player_id: [u64; 2],
    pub nonce: u64,
    pub data: PlayerData,
}

/// The account id of a public key: its two middle words.
pub open spec fn pid_of(pkey: [u64; 4]) -> [u64; 2] {
    [pkey[1], pkey[2]]
}

/// Account id of a public key.
pub fn pkey_to_pid(pkey: &[u64; 4]) -> (r: [u64; 2])
    ensures
        r == pid_of(*pkey),
{
    [pkey[1], pkey[2]]
}

impl GamePlayer {
    /// A fresh account for `pid`: nonce zero, no balance, default capacity.
    pub fn new_from_pid(pid: [u64; 2]) -> (r: Self)
        ensures
            r.player_id == pid,
            r.nonce == 0,
            r.data.balance == 0,
            r.data.inventory_size == DEFAULT_INVENTORY_SIZE,
            r.data.inventory@ == Seq::<u64>::empty(),
    {
        GamePlayer { player_id: pid, nonce: 0, data: PlayerData::default() }
    }

    /// Accepts `nonce` only when it equals the stored one, which then grows by one.
    pub fn check_and_inc_nonce(&mut self, nonce: u64) -> (r: Result<(), u32>)
        ensures
            r is Ok <==> nonce == old(self).nonce && old(self).nonce < u64::MAX,
            r matches Err(e) ==> e == ERROR_INVALID_NONCE,
            final(self).nonce == (if r is Ok {
                (old(self).nonce + 1) as u64
            } else {
                old(self).nonce
            }),
            final(self).player_id == old(self).player_id,
            final(self).data == old(self).data,
    {
        if nonce != self.nonce || self.nonce == u64::MAX {
            Err(ERROR_INVALID_NONCE)
        } else {
            self.nonce = self.nonce + 1;
            Ok(())
        }
    }
}

/// An account addressed by its owner's public key.
pub trait Owner: Sized {
    /// What the game state records of this account.
    spec fn owner_view(&self) -> PlayerView;

    /// The account id.
    spec fn owner_id(&self) -> [u64; 2];

    /// A fresh account for `pkey`.
    fn new(pkey: &[u64; 4]) -> (r: Self)
        ensures
            r.owner_id() == pid_of(*pkey),
            r.owner_view() == new_player_view(),
    ;

    /// The account of `pkey` in `state`, if there is one.
    fn get<'a>(state: &'a GlobalState, pkey: &[u64; 4]) -> (r: Option<&'a Self>)
        ensures
            r is Some <==> state@.players.contains_key(pid_key(pid_of(*pkey))),
            r matches Some(p) ==> p.owner_view() == state@.players[pid_key(pid_of(*pkey))],
    ;
}

} // verus!
