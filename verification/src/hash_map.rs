use crate::descriptor::MapDescriptor;
use crate::error::Error;
use crate::syscall::{advance, found, reply, transition, Call, Event, Step};
use core::marker::PhantomData;
use vstd::layout::size_of;
use vstd::prelude::*;

verus! {

/// Whether keys of type `K` and values of type `V` have the sizes that the
/// map `base` declares.
pub open spec fn layout_matches<K, V>(base: &MapDescriptor) -> bool {
    size_of::<K>() == base.config.key_size as nat && size_of::<V>() == base.config.value_size as nat
}

/// Tests the sizes of `K` and `V` against the sizes that `base` declares.
pub fn check_layout<K, V>(base: &MapDescriptor) -> (r: Result<(), Error>)
    ensures
        r == (if layout_matches::<K, V>(base) {
            Ok::<(), Error>(())
        } else {
            Err::<(), Error>(Error::LayoutMismatch)
        }),
{
    if core::mem::size_of::<K>() != base.config.key_size as usize || core::mem::size_of::<V>()
        != base.config.value_size as usize {
        Err(Error::LayoutMismatch)
    } else {
        Ok(())
    }
}

/// A view of a map that stores one value of type `V` under each key of type `K`.
pub struct HashMap<'a, K: Clone, V: Clone> {
    base: &'a MapDescriptor,
    _k: PhantomData<K>,
    _v: PhantomData<V>,
}

/// A cursor over the entries of a [`HashMap`].
pub struct Iterable<'a, 'b, K: Clone, V: Clone> {
    map: &'a HashMap<'b, K, V>,
    key: Option<K>,
}

impl<'base, K: Clone, V: Clone> HashMap<'base, K, V> {
    /// The descriptor this view borrows.
    pub closed spec fn base(&self) -> &MapDescriptor {
        self.base
    }

    /// The handle of the underlying map.
    pub open spec fn fd(&self) -> i32 {
        self.base().fd
    }

    /// A view exists only over a map whose declared sizes are those of `K` and `V`.
    pub open spec fn wf(&self) -> bool {
        layout_matches::<K, V>(self.base())
    }

    /// Binds `base` to the shapes `K` and `V`. Fails with `LayoutMismatch`
    /// exactly when the size of `K` or of `V` differs from what `base` declares.
    pub fn new<'a>(base: &'a MapDescriptor) -> (r: Result<HashMap<'a, K, V>, Error>)
        ensures
            layout_matches::<K, V>(base) ==> (r matches Ok(view) && view.base() == base
                && view.wf()),
            !layout_matches::<K, V>(base) ==> (r matches Err(e) && e == Error::LayoutMismatch),
    {
        match check_layout::<K, V>(base) {
            Ok(()) => Ok(HashMap { base, _k: PhantomData, _v: PhantomData }),
            Err(e) => Err(e),
        }
    }

    /// The call that stores `value` under `key`. Its result is not looked at.
    pub fn set(&self, key: K, value: V) -> (call: Call<K, V>)
        ensures
            call == (Call::Update { fd: self.fd(), key, value, flags: 0 }),
    {
        Call::Update { fd: self.base.fd, key, value, flags: 0 }
    }

    /// The call that reads the value stored under `key`; `get` interprets its answer.
    pub fn lookup(&self, key: K) -> (call: Call<K, V>)
        ensures
            call == (Call::<K, V>::Lookup { fd: self.fd(), key, slots: 1 }),
    {
        Call::Lookup { fd: self.base.fd, key, slots: 1 }
    }

    /// The value that a lookup found: `ret` is the lookup's return code and
    /// `value` the buffer it was given. Any negative `ret` is a miss.
    pub fn get(&self, ret: i32, value: V) -> (r: Option<V>)
        ensures
            r == found(ret, value),
    {
        reply(ret, value)
    }

    /// The call that removes `key`. Its result is not looked at.
    pub fn delete(&self, key: K) -> (call: Call<K, V>)
        ensures
            call == (Call::<K, V>::Delete { fd: self.fd(), key }),
    {
        Call::Delete { fd: self.base.fd, key }
    }

    /// A cursor that has not started.
    pub fn iter<'a>(&'a self) -> (cursor: Iterable<'a, 'base, K, V>)
        ensures
            cursor.map() == self,
            cursor.last_key().is_none(),
    {
        Iterable { map: self, key: None }
    }
}

impl<'a, 'b, K: Clone, V: Clone> Iterable<'a, 'b, K, V> {
    /// The view this cursor walks.
    pub closed spec fn map(&self) -> &HashMap<'b, K, V> {
        self.map
    }

    /// The key the cursor has reached; `None` until the map has given it one.
    pub closed spec fn last_key(&self) -> Option<K> {
        self.key
    }

    /// The size in bytes of the buffer a key is read into.
    pub open spec fn key_size(&self) -> usize {
        self.map().base().config.key_size as usize
    }

    /// The first key of the map, from the answer to `FirstKey`.
    pub fn get_first_key(&self, ret: i32, key: K) -> (r: Option<K>)
        ensures
            r == found(ret, key),
    {
        reply(ret, key)
    }

    /// The key after the last one, from the answer to `NextKey`.
    pub fn get_next_key(&self, ret: i32, next_key: K) -> (r: Option<K>)
        ensures
            r == found(ret, next_key),
    {
        reply(ret, next_key)
    }
}

impl<'a, 'b, K: Copy, V: Clone> Iterable<'a, 'b, K, V> {
    /// One transition of the cursor. A pass starts with `Event::Begin`; after
    /// `Step::Ask` the caller makes the call and comes back with its answer;
    /// `Step::Yield` is the next entry and `Step::Done` the end of the pass.
    pub fn next(&mut self, event: Event<K, V>) -> (step: Step<K, V, V>)
        ensures
            final(self).map() == old(self).map(),
            (final(self).last_key(), step) == transition::<K, V, V>(
                old(self).map().fd(),
                old(self).key_size(),
                1,
                old(self).last_key(),
                event,
            ),
    {
        advance(self.map.base.fd, self.map.base.config.key_size as usize, 1, &mut self.key, event)
    }
}

} // verus!
