//! Single flight: concurrent misses on one tile share one download.
//!
//! The table records, for each tile that is being downloaded, who waits for
//! it. The first to ask for a tile leads: it downloads. Whoever asks while
//! the download runs follows: it waits. When the download ends, everyone
//! recorded gets its result. The host keeps the table behind a lock that is
//! held only for the duration of one call.

use vstd::prelude::*;
use crate::tiles::TileKey;

verus! {

/// One download in progress and those who wait for it, the leader first.
pub struct Flight {
    key: TileKey,
    waiters: Vec<u64>,
}

/// The downloads in progress.
pub struct FlightTable {
    flights: Vec<Flight>,
}

/// The table after `waiter` has asked for `key`.
pub open spec fn joined_once(
    table: Map<TileKey, Seq<u64>>,
    key: TileKey,
    waiter: u64,
) -> Map<TileKey, Seq<u64>> {
    if table.contains_key(key) {
        table.insert(key, table[key].push(waiter))
    } else {
        table.insert(key, seq![waiter])
    }
}

/// The table after each of `waiters` has asked for `key`, in order, with
/// no download ending in between.
pub open spec fn joined(
    table: Map<TileKey, Seq<u64>>,
    key: TileKey,
    waiters: Seq<u64>,
) -> Map<TileKey, Seq<u64>>
    decreases waiters.len(),
{
    if waiters.len() == 0 {
        table
    } else {
        joined_once(joined(table, key, waiters.drop_last()), key, waiters.last())
    }
}

/// How many of `waiters` are told to download when each asks for `key`, in
/// order, with no download ending in between.
pub open spec fn downloads(table: Map<TileKey, Seq<u64>>, key: TileKey, waiters: Seq<u64>) -> nat
    decreases waiters.len(),
{
    if waiters.len() == 0 {
        0
    } else {
        let before = joined(table, key, waiters.drop_last());
        let lead: nat = if before.contains_key(key) {
            0
        } else {
            1
        };
        downloads(table, key, waiters.drop_last()) + lead
    }
}

/// However many ask for a tile that nobody is downloading yet, exactly one
/// of them downloads, all of them are recorded in the order they came, and
/// no other tile's download is touched.
pub proof fn lemma_single_flight(table: Map<TileKey, Seq<u64>>, key: TileKey, waiters: Seq<u64>)
    requires
        !table.contains_key(key),
        waiters.len() >= 1,
    ensures
        downloads(table, key, waiters) == 1,
        joined(table, key, waiters).contains_key(key),
        joined(table, key, waiters)[key] == waiters,
        joined(table, key, waiters).remove(key) == table,
    decreases waiters.len(),
{
    let front = waiters.drop_last();
    if front.len() == 0 {
        assert(joined(table, key, front) == table);
        assert(downloads(table, key, front) == 0);
        assert(seq![waiters.last()] =~= waiters);
        assert(joined(table, key, waiters).remove(key) =~= table);
    } else {
        lemma_single_flight(table, key, front);
        assert(front.push(waiters.last()) =~= waiters);
        assert(joined(table, key, waiters).remove(key) =~= joined(table, key, front).remove(key));
    }
}

/// Those who ask for a tile that is already being downloaded all wait.
pub proof fn lemma_followers_wait(table: Map<TileKey, Seq<u64>>, key: TileKey, waiters: Seq<u64>)
    requires
        table.contains_key(key),
    ensures
        downloads(table, key, waiters) == 0,
        joined(table, key, waiters).contains_key(key),
        joined(table, key, waiters)[key] == table[key] + waiters,
    decreases waiters.len(),
{
    if waiters.len() == 0 {
        assert(table[key] + waiters =~= table[key]);
    } else {
        let front = waiters.drop_last();
        lemma_followers_wait(table, key, front);
        assert((table[key] + front).push(waiters.last()) =~= table[key] + waiters);
    }
}

/// Asking for one tile leaves the downloads of every other tile as they
/// are.
pub proof fn lemma_keys_independent(
    table: Map<TileKey, Seq<u64>>,
    key: TileKey,
    waiter: u64,
    other: TileKey,
)
    requires
        other != key,
    ensures
        joined_once(table, key, waiter).contains_key(other) == table.contains_key(other),
        table.contains_key(other) ==> joined_once(table, key, waiter)[other] == table[other],
{
}

impl FlightTable {
    /// The place of `key` in the list, if it is there.
    spec fn place(&self, key: TileKey) -> Option<int> {
        if exists|i: int| 0 <= i < self.flights@.len() && self.flights@[i].key == key {
            Some(choose|i: int| 0 <= i < self.flights@.len() && self.flights@[i].key == key)
        } else {
            None
        }
    }

    /// Whether no tile is listed twice and every listed download has
    /// someone waiting for it.
    pub closed spec fn wf(&self) -> bool {
        &&& forall|i: int, j: int|
            0 <= i < j < self.flights@.len() ==> self.flights@[i].key != self.flights@[j].key
        &&& forall|i: int| 0 <= i < self.flights@.len() ==> self.flights@[i].waiters@.len() >= 1
    }
}

impl View for FlightTable {
    type V = Map<TileKey, Seq<u64>>;

    /// For each tile that is being downloaded, those who wait for it.
    closed spec fn view(&self) -> Map<TileKey, Seq<u64>> {
        Map::new(
            |key: TileKey| self.place(key) is Some,
            |key: TileKey| self.flights@[self.place(key)->0].waiters@,
        )
    }
}

impl FlightTable {
    /// A table with no download in progress.
    pub fn new() -> (table: FlightTable)
        ensures
            table.wf(),
            table@ == Map::<TileKey, Seq<u64>>::empty(),
    {
        let table = FlightTable { flights: Vec::new() };
        assert(table@ =~= Map::<TileKey, Seq<u64>>::empty());
        table
    }

    /// Where `key` stands in the list.
    fn find(&self, key: TileKey) -> (at: Option<usize>)
        requires
            self.wf(),
        ensures
            at is Some <==> self@.contains_key(key),
            at is Some ==> at->0 < self.flights@.len() && self.flights@[at->0 as int].key == key
                && self.place(key) == Some(at->0 as int),
            at is None ==> forall|i: int|
                0 <= i < self.flights@.len() ==> self.flights@[i].key != key,
    {
        let mut i: usize = 0;
        while i < self.flights.len()
            invariant
                self.wf(),
                i <= self.flights@.len(),
                forall|j: int| 0 <= j < i ==> self.flights@[j].key != key,
            decreases self.flights@.len() - i,
        {
            if self.flights[i].key == key {
                proof {
                    let p = self.place(key)->0;
                    assert(self.flights@[i as int].key == key);
                    assert(self.flights@[p].key == key);
                    assert(p == i);
                }
                return Some(i);
            }
            i += 1;
        }
        None
    }

    /// Whether `key` is being downloaded.
    pub fn in_flight(&self, key: TileKey) -> (b: bool)
        requires
            self.wf(),
        ensures
            b == self@.contains_key(key),
    {
        self.find(key).is_some()
    }

    /// Those who wait for `key`, the leader first; nobody if `key` is not
    /// being downloaded.
    pub fn waiters(&self, key: TileKey) -> (waiters: Vec<u64>)
        requires
            self.wf(),
        ensures
            waiters@ == (if self@.contains_key(key) {
                self@[key]
            } else {
                Seq::<u64>::empty()
            }),
    {
        match self.find(key) {
            Some(at) => self.flights[at].waiters.clone(),
            None => Vec::new(),
        }
    }

    /// Records that `waiter` wants `key` and says whether it leads, that
    /// is, has to download the tile itself. It leads exactly when nobody is
    /// downloading the tile yet.
    pub fn join(&mut self, key: TileKey, waiter: u64) -> (lead: bool)
        requires
            old(self).wf(),
        ensures
            final(self).wf(),
            lead == !old(self)@.contains_key(key),
            final(self)@ == joined_once(old(self)@, key, waiter),
    {
        let ghost before = *self;
        match self.find(key) {
            Some(at) => {
                let mut flight = self.flights.remove(at);
                flight.waiters.push(waiter);
                self.flights.insert(at, flight);
                proof {
                    assert(self.flights@.len() == before.flights@.len());
                    assert forall|i: int| 0 <= i < self.flights@.len() implies self.flights@[i].key
                        == before.flights@[i].key by {}
                    assert forall|k: TileKey| self.place(k) == before.place(k) by {
                        if before.place(k) is Some {
                            let p = before.place(k)->0;
                            assert(self.flights@[p].key == k);
                        }
                        if self.place(k) is Some {
                            let p = self.place(k)->0;
                            assert(before.flights@[p].key == k);
                        }
                    }
                    assert(self@ =~= joined_once(before@, key, waiter));
                }
                false
            },
            None => {
                let mut waiters: Vec<u64> = Vec::new();
                waiters.push(waiter);
                self.flights.push(Flight { key, waiters });
                proof {
                    let n = before.flights@.len() as int;
                    assert(self.flights@[n].key == key);
                    assert forall|k: TileKey| k != key implies self.place(k) == before.place(k) by {
                        if before.place(k) is Some {
                            let p = before.place(k)->0;
                            assert(self.flights@[p].key == k);
                        }
                        if self.place(k) is Some {
                            let p = self.place(k)->0;
                            assert(before.flights@[p].key == k);
                        }
                    }
                    assert(self.place(key) == Some(n));
                    assert(seq![waiter] =~= self.flights@[n].waiters@);
                    assert(self@ =~= joined_once(before@, key, waiter));
                }
                true
            },
        }
    }

    /// Ends the download of `key` and hands out those who waited for it,
    /// the leader first: each of them gets the one result. Nobody is handed
    /// out if `key` was not being downloaded.
    pub fn complete(&mut self, key: TileKey) -> (waiters: Vec<u64>)
        requires
            old(self).wf(),
        ensures
            final(self).wf(),
            final(self)@ == old(self)@.remove(key),
            waiters@ == (if old(self)@.contains_key(key) {
                old(self)@[key]
            } else {
                Seq::<u64>::empty()
            }),
    {
        let ghost before = *self;
        match self.find(key) {
            Some(at) => {
                let flight = self.flights.remove(at);
                proof {
                    assert forall|k: TileKey| k != key implies (self.place(k) is Some
                        <==> before.place(k) is Some) && (self.place(k) is Some
                        ==> self.flights@[self.place(k)->0] == before.flights@[before.place(
                        k,
                    )->0]) by {
                        if before.place(k) is Some {
                            let p = before.place(k)->0;
                            if p < at {
                                assert(self.flights@[p].key == k);
                            } else {
                                assert(self.flights@[p - 1].key == k);
                            }
                        }
                        if self.place(k) is Some {
                            let p = self.place(k)->0;
                            if p < at {
                                assert(before.flights@[p].key == k);
                            } else {
                                assert(before.flights@[p + 1].key == k);
                            }
                        }
                    }
                    assert(self.place(key) is None);
                    assert(self@ =~= before@.remove(key));
                }
                flight.waiters
            },
            None => {
                proof {
                    assert(self@ =~= before@.remove(key));
                }
                Vec::new()
            },
        }
    }
}

} // verus!
