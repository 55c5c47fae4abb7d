use vstd::prelude::*;

verus! {

/// One call into the kernel's map interface, with its arguments as plain values.
///
/// The caller marshals `key` and `value` into the buffers the kernel reads.
pub enum Call<K, V> {
    /// Store `value` under `key`.
    Update { fd: i32, key: K, value: V, flags: u64 },
    /// Read what is stored under `key` into a buffer of `slots` values.
    Lookup { fd: i32, key: K, slots: usize },
    /// Remove `key`.
    Delete { fd: i32, key: K },
    /// Ask for the first key of the map, into a buffer of `key_size` bytes.
    FirstKey { fd: i32, key_size: usize },
    /// Ask for the key that follows `key`.
    NextKey { fd: i32, key: K },
}

/// What a cursor is told: that a pass goes on, or the interpreted answer to
/// the call it asked for last.
pub enum Event<K, T> {
    /// The caller wants the next entry.
    Begin,
    /// The answer to `FirstKey` or `NextKey`.
    Key(Option<K>),
    /// The answer to `Lookup`.
    Value(Option<T>),
}

/// What a cursor wants done next.
pub enum Step<K, V, T> {
    /// Make this call and come back with its answer.
    Ask(Call<K, V>),
    /// The next entry of the pass.
    Yield(K, T),
    /// The pass is over.
    Done,
}

/// The meaning of a raw answer: a negative return code is a miss, whatever
/// the buffer holds; otherwise the buffer is the answer.
pub open spec fn found<T>(ret: i32, out: T) -> Option<T> {
    if ret < 0 {
        None
    } else {
        Some(out)
    }
}

/// Interprets the return code of a call together with the buffer it filled.
pub fn reply<T>(ret: i32, out: T) -> (r: Option<T>)
    ensures
        r == found(ret, out),
{
    if ret < 0 {
        None
    } else {
        Some(out)
    }
}

/// The call by which a cursor that last produced `last` asks for its next key.
pub open spec fn key_call<K, V>(fd: i32, key_size: usize, last: Option<K>) -> Call<K, V> {
    match last {
        Some(key) => Call::NextKey { fd, key },
        None => Call::FirstKey { fd, key_size },
    }
}

/// The transition of a cursor over the map `fd`: from the key it produced
/// last and an event to the key it holds afterwards and what to do next.
///
/// A key whose value is gone by the time it is looked up is skipped: the
/// cursor asks for the key after it. The end of a pass leaves the cursor
/// where it stands, so that it does not start over when it is asked again.
pub open spec fn transition<K, V, T>(
    fd: i32,
    key_size: usize,
    slots: usize,
    last: Option<K>,
    event: Event<K, T>,
) -> (Option<K>, Step<K, V, T>) {
    match event {
        Event::Begin => (last, Step::Ask(key_call(fd, key_size, last))),
        Event::Key(None) => (last, Step::Done),
        Event::Key(Some(key)) => (Some(key), Step::Ask(Call::Lookup { fd, key, slots })),
        Event::Value(found) => match last {
            None => (None, Step::Done),
            Some(key) => match found {
                None => (last, Step::Ask(Call::NextKey { fd, key })),
                Some(value) => (last, Step::Yield(key, value)),
            },
        },
    }
}

/// Runs one transition of a cursor, updating the key it holds.
pub fn advance<K: Copy, V, T>(
    fd: i32,
    key_size: usize,
    slots: usize,
    last: &mut Option<K>,
    event: Event<K, T>,
) -> (step: Step<K, V, T>)
    ensures
        (*final(last), step) == transition::<K, V, T>(fd, key_size, slots, *old(last), event),
{
    match event {
        Event::Begin => match *last {
            Some(key) => Step::Ask(Call::NextKey { fd, key }),
            None => Step::Ask(Call::FirstKey { fd, key_size }),
        },
        Event::Key(None) => Step::Done,
        Event::Key(Some(key)) => {
            *last = Some(key);
            Step::Ask(Call::Lookup { fd, key, slots })
        },
        Event::Value(found) => match *last {
            None => Step::Done,
            Some(key) => match found {
                None => Step::Ask(Call::NextKey { fd, key }),
                Some(value) => Step::Yield(key, value),
            },
        },
    }
}

} // verus!
