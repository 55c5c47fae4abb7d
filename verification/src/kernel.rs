//! What the calls mean: a model of a map that no one else writes to, and the
//! laws that the views and cursors of this crate obey against it.

use crate::hash_map::HashMap;
use crate::syscall::{found, transition, Call, Event, Step};
use vstd::prelude::*;

verus! {

/// What a map holds at one moment: its entries in the order in which the
/// kernel enumerates them, and the number of entries it has room for.
pub struct Table<K, V> {
    pub entries: Seq<(K, V)>,
    pub capacity: nat,
}

impl<K, V> Table<K, V> {
    /// No key occurs twice, and the entries fit.
    pub open spec fn wf(self) -> bool {
        &&& self.entries.len() <= self.capacity
        &&& forall|i: int, j: int|
            0 <= i < j < self.entries.len() ==> (#[trigger] self.entries[i]).0 != (
            #[trigger] self.entries[j]).0
    }

    /// Whether `key` is present.
    pub open spec fn has(self, key: K) -> bool {
        exists|i: int| 0 <= i < self.entries.len() && (#[trigger] self.entries[i]).0 == key
    }

    /// Where `key` stands in the enumeration order, if it is present.
    pub open spec fn position(self, key: K) -> int {
        choose|i: int| 0 <= i < self.entries.len() && (#[trigger] self.entries[i]).0 == key
    }

    /// The value stored under `key`.
    pub open spec fn value(self, key: K) -> Option<V> {
        if self.has(key) {
            Some(self.entries[self.position(key)].1)
        } else {
            None
        }
    }

    /// The first key in enumeration order.
    pub open spec fn first(self) -> Option<K> {
        if self.entries.len() > 0 {
            Some(self.entries[0].0)
        } else {
            None
        }
    }

    /// The key that follows `key`. After a key that is not present the
    /// enumeration starts over.
    pub open spec fn after(self, key: K) -> Option<K> {
        if !self.has(key) {
            self.first()
        } else if self.position(key) + 1 < self.entries.len() {
            Some(self.entries[self.position(key) + 1].0)
        } else {
            None
        }
    }

    /// The table after `call`. An update of a new key is dropped when the
    /// table is full; a delete of an absent key changes nothing.
    pub open spec fn apply(self, call: Call<K, V>) -> Table<K, V> {
        match call {
            Call::Update { key, value, .. } => if self.has(key) {
                Table {
                    entries: self.entries.update(self.position(key), (key, value)),
                    capacity: self.capacity,
                }
            } else if self.entries.len() < self.capacity {
                Table { entries: self.entries.push((key, value)), capacity: self.capacity }
            } else {
                self
            },
            Call::Delete { key, .. } => if self.has(key) {
                Table {
                    entries: self.entries.remove(self.position(key)),
                    capacity: self.capacity,
                }
            } else {
                self
            },
            _ => self,
        }
    }

    /// Whether the return code `ret` and the buffer `out` are an answer that
    /// a kernel holding this table gives to the lookup `call`.
    pub open spec fn answers_lookup(self, call: Call<K, V>, ret: i32, out: V) -> bool {
        call matches Call::Lookup { key, .. } && found(ret, out) == self.value(key)
    }

    /// The event with which this table answers a call that a cursor asked
    /// for. A cursor asks for keys and values only.
    pub open spec fn answer(self, call: Call<K, V>) -> Event<K, V> {
        match call {
            Call::FirstKey { .. } => Event::Key(self.first()),
            Call::NextKey { key, .. } => Event::Key(self.after(key)),
            Call::Lookup { key, .. } => Event::Value(self.value(key)),
            _ => Event::Begin,
        }
    }

    /// A cursor over the map `fd` driven against this table from `event`
    /// until it yields or ends, through at most `fuel` calls: the key it then
    /// holds, and the entry it yielded.
    pub open spec fn run(
        self,
        fd: i32,
        key_size: usize,
        last: Option<K>,
        event: Event<K, V>,
        fuel: nat,
    ) -> (Option<K>, Option<(K, V)>)
        decreases fuel,
    {
        let (held, step) = transition::<K, V, V>(fd, key_size, 1, last, event);
        match step {
            Step::Yield(key, value) => (held, Some((key, value))),
            Step::Done => (held, None),
            Step::Ask(call) => if fuel == 0 {
                (held, None)
            } else {
                self.run(fd, key_size, held, self.answer(call), (fuel - 1) as nat)
            },
        }
    }

    /// What a cursor that holds `last` yields when it is asked for an entry
    /// up to `rounds` times, stopping at the first time it yields none. Each
    /// time it has two calls: one for the key and one for its value.
    pub open spec fn pass(self, fd: i32, key_size: usize, last: Option<K>, rounds: nat) -> Seq<
        (K, V),
    >
        decreases rounds,
    {
        if rounds == 0 {
            Seq::empty()
        } else {
            match self.run(fd, key_size, last, Event::Begin, 2) {
                (held, Some(entry)) => seq![entry] + self.pass(
                    fd,
                    key_size,
                    held,
                    (rounds - 1) as nat,
                ),
                (_, None) => Seq::empty(),
            }
        }
    }

    /// The table after a `set` of each pair of `writes`, in their order.
    pub open spec fn filled(self, fd: i32, writes: Seq<(K, V)>) -> Table<K, V>
        decreases writes.len(),
    {
        if writes.len() == 0 {
            self
        } else {
            self.filled(fd, writes.drop_last()).apply(
                Call::Update { fd, key: writes.last().0, value: writes.last().1, flags: 0 },
            )
        }
    }

    /// Writes of distinct keys into an empty table that has room for them
    /// leave exactly those entries, in the order written.
    pub proof fn lemma_filled(self, fd: i32, writes: Seq<(K, V)>)
        requires
            self.entries.len() == 0,
            writes.len() <= self.capacity,
            forall|i: int, j: int|
                0 <= i < j < writes.len() ==> (#[trigger] writes[i]).0 != (#[trigger] writes[j]).0,
        ensures
            self.filled(fd, writes).entries == writes,
            self.filled(fd, writes).capacity == self.capacity,
            self.filled(fd, writes).wf(),
        decreases writes.len(),
    {
        if writes.len() == 0 {
            assert(self.entries =~= writes);
        } else {
            let before = self.filled(fd, writes.drop_last());
            let key = writes.last().0;
            self.lemma_filled(fd, writes.drop_last());
            if before.has(key) {
                let p = before.position(key);
                assert(writes[p].0 == key);
                assert(writes[p].0 != writes[writes.len() - 1].0);
            }
            assert(before.entries.push(writes.last()) =~= writes);
        }
    }

    /// After writes into an empty table that has room for them, every key
    /// holds the value of the last write to it, and no other key is present.
    pub proof fn lemma_filled_values(self, fd: i32, writes: Seq<(K, V)>)
        requires
            self.entries.len() == 0,
            writes.len() <= self.capacity,
        ensures
            self.filled(fd, writes).wf(),
            self.filled(fd, writes).capacity == self.capacity,
            self.filled(fd, writes).entries.len() <= writes.len(),
            forall|key: K| #[trigger]
                self.filled(fd, writes).value(key) == last_write(writes, key),
        decreases writes.len(),
    {
        if writes.len() > 0 {
            let before = self.filled(fd, writes.drop_last());
            let (written, value) = writes.last();
            self.lemma_filled_values(fd, writes.drop_last());
            before.lemma_update(fd, written, value, 0);
            let next = self.filled(fd, writes);
            assert(next.entries.len() <= before.entries.len() + 1);
            assert forall|key: K| #[trigger] next.value(key) == last_write(writes, key) by {
                if key != written {
                    assert(before.value(key) == last_write(writes.drop_last(), key));
                }
            }
        }
    }

    /// The key a cursor holds after it has yielded the first `i` entries.
    pub open spec fn held_after(self, i: int) -> Option<K> {
        if i == 0 {
            None
        } else {
            Some(self.entries[i - 1].0)
        }
    }

    /// In a well-formed table a key stands where it is found.
    pub proof fn lemma_position(self, i: int)
        requires
            self.wf(),
            0 <= i < self.entries.len(),
        ensures
            self.has(self.entries[i].0),
            self.position(self.entries[i].0) == i,
            self.value(self.entries[i].0) == Some(self.entries[i].1),
    {
        let key = self.entries[i].0;
        assert(self.has(key));
        let p = self.position(key);
        assert(0 <= p < self.entries.len() && self.entries[p].0 == key);
        if p < i {
            assert(self.entries[p].0 != self.entries[i].0);
        } else if i < p {
            assert(self.entries[i].0 != self.entries[p].0);
        }
    }

    /// One round of a cursor that has yielded the first `i` entries: it
    /// yields entry `i`, or ends where it stands if there is none.
    pub proof fn lemma_round(self, fd: i32, key_size: usize, i: int)
        requires
            self.wf(),
            0 <= i <= self.entries.len(),
        ensures
            i < self.entries.len() ==> self.run(fd, key_size, self.held_after(i), Event::Begin, 2)
                == (self.held_after(i + 1), Some(self.entries[i])),
            i == self.entries.len() ==> self.run(
                fd,
                key_size,
                self.held_after(i),
                Event::Begin,
                2,
            ) == (self.held_after(i), None::<(K, V)>),
    {
        reveal_with_fuel(Table::run, 4);
        if i > 0 {
            self.lemma_position(i - 1);
        }
        if i < self.entries.len() {
            self.lemma_position(i);
        }
    }

    /// A pass of a cursor that has yielded the first `i` entries yields the rest.
    pub proof fn lemma_pass_from(self, fd: i32, key_size: usize, i: int, rounds: nat)
        requires
            self.wf(),
            0 <= i <= self.entries.len(),
            rounds > self.entries.len() - i,
        ensures
            self.pass(fd, key_size, self.held_after(i), rounds) == self.entries.subrange(
                i,
                self.entries.len() as int,
            ),
        decreases self.entries.len() - i,
    {
        self.lemma_round(fd, key_size, i);
        if i < self.entries.len() {
            self.lemma_pass_from(fd, key_size, i + 1, (rounds - 1) as nat);
            assert(seq![self.entries[i]] + self.entries.subrange(i + 1, self.entries.len() as int)
                =~= self.entries.subrange(i, self.entries.len() as int));
        } else {
            assert(self.entries.subrange(i, self.entries.len() as int) =~= Seq::<(K, V)>::empty());
        }
    }

    /// An update leaves a well-formed table well-formed, with every other key as it was.
    pub proof fn lemma_update(self, fd: i32, key: K, value: V, flags: u64)
        requires
            self.wf(),
        ensures
            self.apply(Call::Update { fd, key, value, flags }).wf(),
            self.has(key) || self.entries.len() < self.capacity ==> self.apply(
                Call::Update { fd, key, value, flags },
            ).value(key) == Some(value),
            forall|other: K|
                other != key ==> self.apply(Call::Update { fd, key, value, flags }).value(other)
                    == self.value(other),
    {
        let next = self.apply(Call::Update { fd, key, value, flags });
        if self.has(key) {
            let p = self.position(key);
            assert(forall|i: int|
                0 <= i < self.entries.len() ==> (#[trigger] next.entries[i]).0
                    == self.entries[i].0);
            assert(next.entries[p].0 == key);
            next.lemma_position(p);
            assert forall|other: K| other != key implies next.value(other) == self.value(
                other,
            ) by {
                if self.has(other) {
                    let q = self.position(other);
                    self.lemma_position(q);
                    assert(next.entries[q] == self.entries[q]);
                    next.lemma_position(q);
                } else if next.has(other) {
                    let q = next.position(other);
                    assert(self.entries[q].0 == other);
                }
            }
        } else if self.entries.len() < self.capacity {
            let n = self.entries.len() as int;
            assert(forall|i: int| 0 <= i < n ==> (#[trigger] next.entries[i]) == self.entries[i]);
            assert forall|i: int, j: int| 0 <= i < j < next.entries.len() implies (
            #[trigger] next.entries[i]).0 != (#[trigger] next.entries[j]).0 by {
                if j == n {
                    assert(self.entries[i].0 != key);
                }
            }
            assert(next.entries[n].0 == key);
            next.lemma_position(n);
            assert forall|other: K| other != key implies next.value(other) == self.value(
                other,
            ) by {
                if self.has(other) {
                    let q = self.position(other);
                    self.lemma_position(q);
                    next.lemma_position(q);
                } else if next.has(other) {
                    let q = next.position(other);
                    assert(self.entries[q].0 == other);
                }
            }
        }
    }

    /// A delete leaves a well-formed table well-formed and without the key.
    pub proof fn lemma_delete(self, fd: i32, key: K)
        requires
            self.wf(),
        ensures
            self.apply(Call::Delete { fd, key }).wf(),
            !self.apply(Call::Delete { fd, key }).has(key),
            !self.has(key) ==> self.apply(Call::Delete { fd, key }) == self,
            forall|other: K|
                other != key ==> self.apply(Call::Delete { fd, key }).value(other) == self.value(
                    other,
                ),
    {
        let next = self.apply(Call::Delete { fd, key });
        if self.has(key) {
            let p = self.position(key);
            assert forall|i: int| 0 <= i < next.entries.len() implies (
            #[trigger] next.entries[i]) == self.entries[if i < p {
                i
            } else {
                i + 1
            }] by {}
            assert forall|i: int, j: int| 0 <= i < j < next.entries.len() implies (
            #[trigger] next.entries[i]).0 != (#[trigger] next.entries[j]).0 by {
                let a = if i < p { i } else { i + 1 };
                let b = if j < p { j } else { j + 1 };
                assert(self.entries[a].0 != self.entries[b].0);
            }
            if next.has(key) {
                let q = next.position(key);
                let a = if q < p { q } else { q + 1 };
                assert(self.entries[a].0 == key);
                if a < p {
                    assert(self.entries[a].0 != self.entries[p].0);
                } else {
                    assert(self.entries[p].0 != self.entries[a].0);
                }
            }
            assert forall|other: K| other != key implies next.value(other) == self.value(
                other,
            ) by {
                if self.has(other) {
                    let q = self.position(other);
                    self.lemma_position(q);
                    let b = if q < p { q } else { q - 1 };
                    assert(next.entries[b] == self.entries[q]);
                    next.lemma_position(b);
                } else if next.has(other) {
                    let q = next.position(other);
                    let a = if q < p { q } else { q + 1 };
                    assert(self.entries[a].0 == other);
                }
            }
        }
    }

    /// The table after each of `calls`, in their order.
    pub open spec fn apply_all(self, calls: Seq<Call<K, V>>) -> Table<K, V>
        decreases calls.len(),
    {
        if calls.len() == 0 {
            self
        } else {
            self.apply_all(calls.drop_last()).apply(calls.last())
        }
    }

    /// Calls that do not write to `key` leave what is stored under it.
    pub proof fn lemma_untouched(self, calls: Seq<Call<K, V>>, key: K)
        requires
            self.wf(),
            forall|i: int| 0 <= i < calls.len() ==> !writes_to(#[trigger] calls[i], key),
        ensures
            self.apply_all(calls).wf(),
            self.apply_all(calls).value(key) == self.value(key),
        decreases calls.len(),
    {
        if calls.len() > 0 {
            let before = self.apply_all(calls.drop_last());
            assert forall|i: int| 0 <= i < calls.drop_last().len() implies !writes_to(
                #[trigger] calls.drop_last()[i],
                key,
            ) by {
                assert(calls.drop_last()[i] == calls[i]);
            }
            self.lemma_untouched(calls.drop_last(), key);
            assert(!writes_to(calls[calls.len() - 1], key));
            match calls.last() {
                Call::Update { fd, key: written, value, flags } => {
                    before.lemma_update(fd, written, value, flags);
                },
                Call::Delete { fd, key: removed } => {
                    before.lemma_delete(fd, removed);
                },
                _ => {},
            }
        }
    }
}

/// The value of the last of `writes` that has `key`.
pub open spec fn last_write<K, V>(writes: Seq<(K, V)>, key: K) -> Option<V>
    decreases writes.len(),
{
    if writes.len() == 0 {
        None
    } else if writes.last().0 == key {
        Some(writes.last().1)
    } else {
        last_write(writes.drop_last(), key)
    }
}

/// Whether `call` stores or removes `key`.
pub open spec fn writes_to<K, V>(call: Call<K, V>, key: K) -> bool {
    match call {
        Call::Update { key: written, .. } => written == key,
        Call::Delete { key: removed, .. } => removed == key,
        _ => false,
    }
}

/// Round trip: where the table has the key or room for it, a lookup of `key`
/// that follows a `set` of `key` to `value`, with no write to `key` among the
/// calls in between, is answered with `value`, and `get` returns it.
pub proof fn law_get_after_set<K: Clone, V: Clone>(
    view: &HashMap<K, V>,
    table: Table<K, V>,
    key: K,
    value: V,
    between: Seq<Call<K, V>>,
    ret: i32,
    out: V,
)
    requires
        table.wf(),
        table.has(key) || table.entries.len() < table.capacity,
        forall|i: int| 0 <= i < between.len() ==> !writes_to(#[trigger] between[i], key),
        table.apply(Call::Update { fd: view.fd(), key, value, flags: 0 }).apply_all(
            between,
        ).answers_lookup(Call::Lookup { fd: view.fd(), key, slots: 1 }, ret, out),
    ensures
        found(ret, out) == Some(value),
{
    table.lemma_update(view.fd(), key, value, 0);
    table.apply(Call::Update { fd: view.fd(), key, value, flags: 0 }).lemma_untouched(
        between,
        key,
    );
}

/// Deleting an absent key changes nothing, a second delete of a key changes
/// nothing more than the first, and a lookup after a delete is a miss.
pub proof fn law_delete_idempotent<K: Clone, V: Clone>(
    view: &HashMap<K, V>,
    table: Table<K, V>,
    key: K,
    ret: i32,
    out: V,
)
    requires
        table.wf(),
    ensures
        !table.has(key) ==> table.apply(Call::Delete { fd: view.fd(), key }) == table,
        table.apply(Call::Delete { fd: view.fd(), key }).apply(Call::Delete { fd: view.fd(), key })
            == table.apply(Call::Delete { fd: view.fd(), key }),
        table.apply(Call::Delete { fd: view.fd(), key }).answers_lookup(
            Call::Lookup { fd: view.fd(), key, slots: 1 },
            ret,
            out,
        ) ==> found(ret, out).is_none(),
{
    table.lemma_delete(view.fd(), key);
}

/// Completeness of enumeration: against a table that no one writes to, a
/// cursor that has not started yields every entry exactly once, in the
/// table's order and with the value stored under its key, and then ends.
/// Asked again after the end, it yields nothing and stays where it is.
pub proof fn law_enumeration_complete<K: Clone, V: Clone>(
    view: &HashMap<K, V>,
    table: Table<K, V>,
    rounds: nat,
)
    requires
        table.wf(),
        rounds > table.entries.len(),
    ensures
        table.pass(view.fd(), view.base().config.key_size as usize, None, rounds)
            == table.entries,
        forall|i: int, j: int|
            0 <= i < j < table.entries.len() ==> (#[trigger] table.entries[i]).0 != (
            #[trigger] table.entries[j]).0,
        forall|i: int|
            0 <= i < table.entries.len() ==> table.value((#[trigger] table.entries[i]).0) == Some(
                table.entries[i].1,
            ),
        table.run(
            view.fd(),
            view.base().config.key_size as usize,
            table.held_after(table.entries.len() as int),
            Event::Begin,
            2,
        ) == (table.held_after(table.entries.len() as int), None::<(K, V)>),
{
    table.lemma_round(
        view.fd(),
        view.base().config.key_size as usize,
        table.entries.len() as int,
    );
    table.lemma_pass_from(view.fd(), view.base().config.key_size as usize, 0, rounds);
    assert(table.entries.subrange(0, table.entries.len() as int) =~= table.entries);
    assert forall|i: int| 0 <= i < table.entries.len() implies table.value(
        (#[trigger] table.entries[i]).0,
    ) == Some(table.entries[i].1) by {
        table.lemma_position(i);
    }
}

/// Enumeration after population: when a map, empty before, has room for
/// `writes`, a pass over it after a `set` of each yields every key written
/// exactly once, each with the value of the last write to it, and nothing
/// else. Where the keys written are distinct, it yields exactly `writes`.
pub proof fn law_enumeration_after_sets<K: Clone, V: Clone>(
    view: &HashMap<K, V>,
    table: Table<K, V>,
    writes: Seq<(K, V)>,
    rounds: nat,
)
    requires
        table.entries.len() == 0,
        writes.len() <= table.capacity,
        rounds > writes.len(),
    ensures
        ({
            let got = table.filled(view.fd(), writes).pass(
                view.fd(),
                view.base().config.key_size as usize,
                None,
                rounds,
            );
            &&& forall|i: int, j: int|
                0 <= i < j < got.len() ==> (#[trigger] got[i]).0 != (#[trigger] got[j]).0
            &&& forall|i: int|
                0 <= i < got.len() ==> last_write(writes, (#[trigger] got[i]).0) == Some(got[i].1)
            &&& forall|key: K|
                (#[trigger] last_write(writes, key)).is_some() ==> exists|i: int|
                    0 <= i < got.len() && (#[trigger] got[i]).0 == key
            &&& (forall|i: int, j: int|
                0 <= i < j < writes.len() ==> (#[trigger] writes[i]).0 != (#[trigger] writes[j]).0)
                ==> got == writes
        }),
{
    let full = table.filled(view.fd(), writes);
    table.lemma_filled_values(view.fd(), writes);
    law_enumeration_complete(view, full, rounds);
    assert forall|i: int| 0 <= i < full.entries.len() implies last_write(
        writes,
        (#[trigger] full.entries[i]).0,
    ) == Some(full.entries[i].1) by {
        assert(full.value(full.entries[i].0) == last_write(writes, full.entries[i].0));
    }
    assert forall|key: K| (#[trigger] last_write(writes, key)).is_some() implies exists|i: int|
        0 <= i < full.entries.len() && (#[trigger] full.entries[i]).0 == key by {
        assert(full.value(key) == last_write(writes, key));
        assert(full.has(key));
    }
    if forall|i: int, j: int|
        0 <= i < j < writes.len() ==> (#[trigger] writes[i]).0 != (#[trigger] writes[j]).0 {
        table.lemma_filled(view.fd(), writes);
    }
}

/// Enumeration of an empty map ends at once: the first round yields nothing
/// and leaves the cursor as it was.
pub proof fn law_enumeration_empty<K: Clone, V: Clone>(view: &HashMap<K, V>, table: Table<K, V>)
    requires
        table.entries.len() == 0,
    ensures
        table.run(view.fd(), view.base().config.key_size as usize, None, Event::Begin, 2) == (
            None::<K>,
            None::<(K, V)>,
        ),
{
    reveal_with_fuel(Table::run, 4);
}

} // verus!
