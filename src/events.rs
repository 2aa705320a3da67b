use vstd::prelude::*;
use crate::player::{pid_of, pkey_to_pid};
use crate::state::{pid_key, GlobalState, StateView};

verus! {

/// Delta an event is reset to when its owner acts again.
pub const INITIAL_DELTA: usize = 100;
/// Most accounts a player listing returns.
pub const MAX_LISTED_PLAYERS: usize = 20;

/// A countdown attached to an account.
#[derive(Clone, Copy, Debug)]
pub struct Event {
    pub owner: [u64; 4],
    pub delta: usize,
}

/// Pending countdowns, in insertion order, and the number of ticks run.
pub struct EventQueue {
    pub counter: u64,
    pub list: Vec<Event>,
}

/// Two owner keys are the same.
pub open spec fn same_owner(a: [u64; 4], b: [u64; 4]) -> bool {
    a[0] == b[0] && a[1] == b[1] && a[2] == b[2] && a[3] == b[3]
}

/// Events with every countdown of `owner` reset.
pub open spec fn reset_owner(s: Seq<Event>, owner: [u64; 4]) -> Seq<Event> {
    Seq::new(
        s.len(),
        |i: int|
            if same_owner(s[i].owner, owner) {
                Event { delta: INITIAL_DELTA, ..s[i] }
            } else {
                s[i]
            },
    )
}

/// Words of a sequence of events: each owner's four words, then its delta.
pub open spec fn events_words(s: Seq<Event>) -> Seq<u64>
    decreases s.len(),
{
    if s.len() == 0 {
        Seq::empty()
    } else {
        events_words(s.drop_last()) + s.last().encode()
    }
}

/// Owners of the events from position `i` on that have an account, in order.
pub open spec fn registered_owners(s: Seq<Event>, st: StateView, i: int) -> Seq<[u64; 4]>
    decreases s.len() - i,
{
    if i < 0 || i >= s.len() {
        Seq::empty()
    } else if st.players.contains_key(pid_key(pid_of(s[i].owner))) {
        seq![s[i].owner] + registered_owners(s, st, i + 1)
    } else {
        registered_owners(s, st, i + 1)
    }
}

/// The first `n` elements of `s`, or all of them when there are fewer.
pub open spec fn at_most(s: Seq<[u64; 4]>, n: int) -> Seq<[u64; 4]> {
    if s.len() <= n {
        s
    } else {
        s.take(n)
    }
}

/// Position of the first event of `owner`, or the length when there is none.
pub open spec fn first_event_of(s: Seq<Event>, owner: [u64; 4]) -> int {
    if exists|i: int| 0 <= i < s.len() && same_owner(s[i].owner, owner) {
        choose|i: int|
            0 <= i < s.len() && same_owner(s[i].owner, owner) && forall|j: int|
                0 <= j < i ==> !same_owner(#[trigger] s[j].owner, owner)
    } else {
        s.len() as int
    }
}

/// Events after one tick: those at zero leave, the others count down by one.
pub open spec fn ticked(s: Seq<Event>) -> Seq<Event>
    decreases s.len(),
{
    if s.len() == 0 {
        Seq::empty()
    } else {
        let e = s.last();
        ticked(s.drop_last()) + if e.delta == 0 {
            Seq::empty()
        } else {
            seq![Event { delta: (e.delta - 1) as usize, ..e }]
        }
    }
}

/// Number of events stored in words `w`, whose last word is the counter.
pub open spec fn stored_count(w: Seq<u64>) -> int {
    (w.len() - 1) / 5
}

/// The words of the `j`-th stored event.
pub open spec fn stored_event(w: Seq<u64>, j: int) -> Seq<u64> {
    w.subrange(5 * j, 5 * j + 5)
}

/// Words `w` hold a queue: events of five words each, whose deltas fit in a `usize`,
/// then the counter.
pub open spec fn queue_decodes(w: Seq<u64>) -> bool {
    &&& w.len() >= 1
    &&& (w.len() - 1) % 5 == 0
    &&& forall|j: int| 0 <= j < stored_count(w) ==> #[trigger] w[5 * j + 4] <= usize::MAX
}

impl Event {
    /// The words of this event: the owner's four, then the delta.
    pub open spec fn encode(self) -> Seq<u64> {
        seq![self.owner[0], self.owner[1], self.owner[2], self.owner[3], self.delta as u64]
    }

    /// Takes the last event off the end of `buf`; `None`, leaving `buf` alone, when
    /// fewer than five words remain or the delta does not fit in a `usize`.
    pub fn fetch(buf: &mut Vec<u64>) -> (r: Option<Event>)
        ensures
            r is Some <==> old(buf)@.len() >= 5 && old(buf)@.last() <= usize::MAX,
            r is None ==> final(buf)@ == old(buf)@,
            r matches Some(e) ==> {
                &&& e.encode() == old(buf)@.subrange(old(buf)@.len() - 5, old(buf)@.len() as int)
                &&& final(buf)@ == old(buf)@.subrange(0, old(buf)@.len() - 5)
            },
    {
        let n = buf.len();
        if n < 5 {
            return None;
        }
        let d = buf[n - 1];
        if d > usize::MAX as u64 {
            return None;
        }
        let e = Event { owner: [buf[n - 5], buf[n - 4], buf[n - 3], buf[n - 2]], delta: d as usize };
        let ghost before = buf@;
        buf.pop();
        buf.pop();
        buf.pop();
        buf.pop();
        buf.pop();
        assert(buf@ =~= before.subrange(0, n - 5));
        assert(e.encode() =~= before.subrange(n - 5, n as int));
        Some(e)
    }

    /// Appends the encoding of this event.
    pub fn compact(&self, buf: &mut Vec<u64>)
        ensures
            final(buf)@ == old(buf)@ + self.encode(),
    {
        buf.push(self.owner[0]);
        buf.push(self.owner[1]);
        buf.push(self.owner[2]);
        buf.push(self.owner[3]);
        buf.push(self.delta as u64);
        assert(final(buf)@ =~= old(buf)@ + self.encode());
    }
}

impl EventQueue {
    /// An empty queue.
    pub fn new() -> (r: Self)
        ensures
            r.counter == 0,
            r.list@.len() == 0,
    {
        EventQueue { counter: 0, list: Vec::new() }
    }

    /// Resets the countdowns of `owner`; if it has none, appends one of `delta`.
    pub fn insert(&mut self, owner: &[u64; 4], delta: usize)
        ensures
            final(self).counter == old(self).counter,
            (exists|i: int| 0 <= i < old(self).list@.len() && same_owner(old(self).list@[i].owner, *owner))
                ==> final(self).list@ == reset_owner(old(self).list@, *owner),
            !(exists|i: int| 0 <= i < old(self).list@.len() && same_owner(old(self).list@[i].owner, *owner))
                ==> final(self).list@ == old(self).list@.push(Event { owner: *owner, delta }),
    {
        let mut list: Vec<Event> = Vec::new();
        let mut found = false;
        let mut i: usize = 0;
        while i < self.list.len()
            invariant
                0 <= i <= self.list@.len(),
                self.list@ == old(self).list@,
                list@ == reset_owner(self.list@, *owner).subrange(0, i as int),
                found == exists|j: int| 0 <= j < i && same_owner(self.list@[j].owner, *owner),
            decreases self.list@.len() - i,
        {
            let mut event = self.list[i];
            if event.owner[0] == owner[0] && event.owner[1] == owner[1] && event.owner[2] == owner[2]
                && event.owner[3] == owner[3] {
                found = true;
                event.delta = INITIAL_DELTA;
            }
            list.push(event);
            i += 1;
            assert(list@ =~= reset_owner(self.list@, *owner).subrange(0, i as int));
        }
        assert(reset_owner(self.list@, *owner).subrange(0, i as int) =~= reset_owner(self.list@, *owner));
        if !found {
            assert(reset_owner(self.list@, *owner) =~= self.list@);
            list.push(Event { owner: *owner, delta });
        }
        self.list = list;
    }

    /// Counts every event down by one tick, dropping those already at zero.
    pub fn tick(&mut self)
        requires
            old(self).counter < u64::MAX,
        ensures
            final(self).counter == old(self).counter + 1,
            final(self).list@ == ticked(old(self).list@),
    {
        let mut list: Vec<Event> = Vec::new();
        let mut i: usize = 0;
        while i < self.list.len()
            invariant
                0 <= i <= self.list@.len(),
                self.list@ == old(self).list@,
                self.counter == old(self).counter,
                list@ == ticked(self.list@.subrange(0, i as int)),
            decreases self.list@.len() - i,
        {
            let e = self.list[i];
            if e.delta != 0 {
                list.push(Event { delta: e.delta - 1, ..e });
            }
            proof {
                let sub = self.list@.subrange(0, i + 1);
                assert(sub.drop_last() =~= self.list@.subrange(0, i as int));
            }
            i += 1;
            assert(list@ =~= ticked(self.list@.subrange(0, i as int)));
        }
        assert(self.list@.subrange(0, i as int) =~= self.list@);
        self.counter = self.counter + 1;
        self.list = list;
    }

    /// Loads the queue from its stored words, the last event first. Empty words change
    /// nothing; words of another shape are refused, changing nothing.
    pub fn fetch(&mut self, data: Vec<u64>) -> (r: bool)
        ensures
            r == (data@.len() == 0 || queue_decodes(data@)),
            !r || data@.len() == 0 ==> final(self).counter == old(self).counter && final(self).list@
                == old(self).list@,
            r && data@.len() > 0 ==> {
                &&& final(self).counter == data@.last()
                &&& final(self).list@.len() == stored_count(data@)
                &&& forall|k: int|
                    0 <= k < stored_count(data@) ==> #[trigger] final(self).list@[k].encode()
                        == stored_event(data@, stored_count(data@) - 1 - k)
            },
    {
        let ghost data_in = data@;
        let mut rest = data;
        let n = rest.len();
        if n == 0 {
            return true;
        }
        if (n - 1) % 5 != 0 {
            return false;
        }
        let ghost w = rest@;
        let ghost m = stored_count(w);
        let counter = rest[n - 1];
        rest.pop();
        assert(rest@ =~= w.subrange(0, 5 * m));
        let mut list: Vec<Event> = Vec::new();
        let mut ok = true;
        while rest.len() > 0
            invariant_except_break
                ok,
            invariant
                w == data_in,
                n == w.len(),
                m == stored_count(w),
                5 * m + 1 == n,
                0 <= list@.len() <= m,
                rest@ == w.subrange(0, 5 * (m - list@.len())),
                forall|j: int| m - list@.len() <= j < m ==> #[trigger] w[5 * j + 4] <= usize::MAX,
                forall|k: int|
                    0 <= k < list@.len() ==> #[trigger] list@[k].encode() == stored_event(w, m - 1 - k),
            ensures
                !ok ==> !queue_decodes(w),
                ok ==> rest@.len() == 0,
            decreases rest@.len(),
        {
            let ghost i = list@.len();
            let ghost before = rest@;
            assert(before.last() == w[5 * (m - i - 1) + 4]);
            match Event::fetch(&mut rest) {
                Some(e) => {
                    assert(before.subrange(before.len() - 5, before.len() as int) =~= stored_event(w, m - 1 - i));
                    assert(rest@ =~= w.subrange(0, 5 * (m - i - 1)));
                    list.push(e);
                },
                None => {
                    assert(w[5 * (m - i - 1) + 4] > usize::MAX);
                    ok = false;
                    break;
                },
            }
        }
        if !ok {
            return false;
        }
        assert(queue_decodes(w)) by {
            assert forall|j: int| 0 <= j < stored_count(w) implies #[trigger] w[5 * j + 4] <= usize::MAX by {
                assert(m - list@.len() <= j);
            }
        }
        self.counter = counter;
        self.list = list;
        true
    }

    /// Keys of the accounts behind the events, starting at the first event of `pkey`
    /// and skipping owners without an account, at most twenty.
    pub fn get_players(&self, state: &GlobalState, pkey: &[u64; 4]) -> (r: Vec<[u64; 4]>)
        ensures
            r@ == at_most(
                registered_owners(self.list@, state@, first_event_of(self.list@, *pkey)),
                MAX_LISTED_PLAYERS as int,
            ),
    {
        let n = self.list.len();
        let mut start: usize = 0;
        while start < n
            invariant
                0 <= start <= n == self.list@.len(),
                forall|j: int| 0 <= j < start ==> !same_owner(#[trigger] self.list@[j].owner, *pkey),
            ensures
                0 <= start <= n,
                forall|j: int| 0 <= j < start ==> !same_owner(#[trigger] self.list@[j].owner, *pkey),
                start < n ==> same_owner(self.list@[start as int].owner, *pkey),
            decreases n - start,
        {
            let o = self.list[start].owner;
            if o[0] == pkey[0] && o[1] == pkey[1] && o[2] == pkey[2] && o[3] == pkey[3] {
                break;
            }
            start += 1;
        }
        proof {
            if start < n {
                let w = start as int;
                assert(0 <= w < self.list@.len() && same_owner(self.list@[w].owner, *pkey));
                let c = first_event_of(self.list@, *pkey);
                assert(0 <= c < self.list@.len() && same_owner(self.list@[c].owner, *pkey));
                assert(c == w);
            }
        }
        let ghost whole = registered_owners(self.list@, state@, start as int);
        let mut players: Vec<[u64; 4]> = Vec::new();
        let mut i: usize = start;
        while i < n && players.len() < MAX_LISTED_PLAYERS
            invariant
                start <= i <= n == self.list@.len(),
                players@.len() <= MAX_LISTED_PLAYERS,
                whole == registered_owners(self.list@, state@, start as int),
                whole == players@ + registered_owners(self.list@, state@, i as int),
            decreases n - i,
        {
            let owner = self.list[i].owner;
            let found = state.player(&pkey_to_pid(&owner)).is_some();
            let ghost before = players@;
            if found {
                players.push(owner);
            }
            proof {
                let rest = registered_owners(self.list@, state@, i + 1);
                if found {
                    assert(registered_owners(self.list@, state@, i as int) == seq![owner] + rest);
                    assert(whole =~= players@ + rest);
                } else {
                    assert(registered_owners(self.list@, state@, i as int) == rest);
                }
            }
            i += 1;
        }
        if i >= n {
            assert(registered_owners(self.list@, state@, i as int) =~= Seq::<[u64; 4]>::empty());
            assert(whole =~= players@);
        } else {
            assert(whole.take(MAX_LISTED_PLAYERS as int) =~= players@);
        }
        players
    }

    /// The words under which the queue is stored: its events, then the counter.
    pub fn to_data(&self) -> (r: Vec<u64>)
        ensures
            r@ == events_words(self.list@).push(self.counter),
    {
        let mut v: Vec<u64> = Vec::new();
        let mut i: usize = 0;
        while i < self.list.len()
            invariant
                0 <= i <= self.list@.len(),
                v@ == events_words(self.list@.subrange(0, i as int)),
            decreases self.list@.len() - i,
        {
            self.list[i].compact(&mut v);
            proof {
                let sub = self.list@.subrange(0, i + 1);
                assert(sub.drop_last() =~= self.list@.subrange(0, i as int));
            }
            i += 1;
        }
        assert(self.list@.subrange(0, i as int) =~= self.list@);
        v.push(self.counter);
        v
    }
}

} // verus!
