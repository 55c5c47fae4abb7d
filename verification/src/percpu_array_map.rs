use crate::descriptor::MapDescriptor;
use crate::error::Error;
use crate::hash_map::{check_layout, layout_matches};
use crate::syscall::{advance, found, reply, transition, Call, Event, Step};
use core::marker::PhantomData;
use vstd::prelude::*;

verus! {

/// A view of a map that stores, under each key of type `K`, one value of
/// type `V` for every processing unit.
pub struct PerCPUArrayMap<'a, K: Clone, V: Clone> {
    base: &'a MapDescriptor,
    _k: PhantomData<K>,
    _v: PhantomData<V>,
}

/// A cursor over the entries of a [`PerCPUArrayMap`].
pub struct Iterable<'a, 'b, K: Clone, V: Clone> {
    map: &'a PerCPUArrayMap<'b, K, V>,
    key: Option<K>,
}

/// What a lookup that was given room for `cores` values found: the values,
/// one per unit in ascending order of the units, unless the lookup failed or
/// the buffer does not hold one value per unit.
pub open spec fn found_per_unit<V>(ret: i32, values: Vec<V>, cores: usize) -> Option<Vec<V>> {
    if ret >= 0 && values@.len() == cores {
        Some(values)
    } else {
        None
    }
}

impl<'base, K: Clone, V: Clone> PerCPUArrayMap<'base, K, V> {
    /// The descriptor this view borrows.
    pub closed spec fn base(&self) -> &MapDescriptor {
        self.base
    }

    /// The handle of the underlying map.
    pub open spec fn fd(&self) -> i32 {
        self.base().fd
    }

    /// A view exists only over a map whose declared sizes are those of `K` and `V`.
    pub open spec fn wf(&self) -> bool {
        layout_matches::<K, V>(self.base())
    }

    /// Binds `base` to the shapes `K` and `V`. Fails with `LayoutMismatch`
    /// exactly when the size of `K` or of `V` differs from what `base` declares.
    pub fn new<'a>(base: &'a MapDescriptor) -> (r: Result<PerCPUArrayMap<'a, K, V>, Error>)
        ensures
            layout_matches::<K, V>(base) ==> (r matches Ok(view) && view.base() == base
                && view.wf()),
            !layout_matches::<K, V>(base) ==> (r matches Err(e) && e == Error::LayoutMismatch),
    {
        match check_layout::<K, V>(base) {
            Ok(()) => Ok(PerCPUArrayMap { base, _k: PhantomData, _v: PhantomData }),
            Err(e) => Err(e),
        }
    }

    /// The call that writes the single value `value` under `key`. How the
    /// kernel spreads it over the units is its own affair.
    pub fn set(&self, key: K, value: V) -> (call: Call<K, V>)
        ensures
            call == (Call::Update { fd: self.fd(), key, value, flags: 0 }),
    {
        Call::Update { fd: self.base.fd, key, value, flags: 0 }
    }

    /// The one call that reads the values of all `cores` units under `key`.
    pub fn lookup(&self, key: K, cores: usize) -> (call: Call<K, V>)
        ensures
            call == (Call::<K, V>::Lookup { fd: self.fd(), key, slots: cores }),
    {
        Call::Lookup { fd: self.base.fd, key, slots: cores }
    }

    /// The number of bytes that the values of `cores` units take, where a
    /// `usize` can hold it.
    pub fn buffer_len(&self, cores: usize) -> (r: Option<usize>)
        ensures
            r == (if cores * self.base().config.value_size <= usize::MAX {
                Some((cores * self.base().config.value_size) as usize)
            } else {
                None
            }),
    {
        cores.checked_mul(self.base.config.value_size as usize)
    }

    /// The values that a lookup for `cores` units found: `ret` is its return
    /// code and `values` the buffer it filled. What is returned holds exactly
    /// one value per unit.
    pub fn get(&self, ret: i32, values: Vec<V>, cores: usize) -> (r: Option<Vec<V>>)
        ensures
            r == found_per_unit(ret, values, cores),
            r matches Some(found) ==> found@.len() == cores,
    {
        if ret >= 0 && values.len() == cores {
            Some(values)
        } else {
            None
        }
    }

    /// A cursor that has not started.
    pub fn iter<'a>(&'a self) -> (cursor: Iterable<'a, 'base, K, V>)
        ensures
            cursor.map() == self,
            cursor.last_key().is_none(),
    {
        Iterable { map: self, key: None }
    }
}

impl<'a, 'b, K: Clone, V: Clone> Iterable<'a, 'b, K, V> {
    /// The view this cursor walks.
    pub closed spec fn map(&self) -> &PerCPUArrayMap<'b, K, V> {
        self.map
    }

    /// The key the cursor has reached; `None` until the map has given it one.
    pub closed spec fn last_key(&self) -> Option<K> {
        self.key
    }

    /// The size in bytes of the buffer a key is read into.
    pub open spec fn key_size(&self) -> usize {
        self.map().base().config.key_size as usize
    }

    /// The first key of the map, from the answer to `FirstKey`.
    pub fn get_first_key(&self, ret: i32, key: K) -> (r: Option<K>)
        ensures
            r == found(ret, key),
    {
        reply(ret, key)
    }

    /// The key after the last one, from the answer to `NextKey`.
    pub fn get_next_key(&self, ret: i32, next_key: K) -> (r: Option<K>)
        ensures
            r == found(ret, next_key),
    {
        reply(ret, next_key)
    }
}

impl<'a, 'b, K: Copy, V: Clone> Iterable<'a, 'b, K, V> {
    /// One transition of the cursor, on a machine with `cores` units. The
    /// lookups it asks for have room for one value per unit.
    pub fn next(&mut self, event: Event<K, Vec<V>>, cores: usize) -> (step: Step<K, V, Vec<V>>)
        ensures
            final(self).map() == old(self).map(),
            (final(self).last_key(), step) == transition::<K, V, Vec<V>>(
                old(self).map().fd(),
                old(self).key_size(),
                cores,
                old(self).last_key(),
                event,
            ),
    {
        advance(
            self.map.base.fd,
            self.map.base.config.key_size as usize,
            cores,
            &mut self.key,
            event,
        )
    }
}

/// The number of processing units, from the list of those that are online.
pub fn num_cpu_cores(online: &[u16]) -> (cores: usize)
    ensures
        cores == online@.len(),
{
    online.len()
}

} // verus!
