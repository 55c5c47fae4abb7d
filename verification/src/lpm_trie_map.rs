use crate::descriptor::{field_at, MapDescriptor};
use crate::error::Error;
use crate::hash_map::{check_layout, layout_matches};
use crate::syscall::{found, reply, Call};
use core::marker::PhantomData;
use vstd::prelude::*;

verus! {

/// A view of a map that is keyed by bit prefixes and finds, for a key, the
/// longest stored prefix that covers it. Matching is the kernel's work.
pub struct LPMTrieMap<'a, K: Clone, V: Clone> {
    base: &'a MapDescriptor,
    _k: PhantomData<K>,
    _v: PhantomData<V>,
}

/// A prefix: the leading `prefixlen` bits of `data`.
#[derive(Debug, Clone)]
pub struct LPMTrieKey {
    pub prefixlen: u32,
    pub data: Vec<u8>,
}

/// The four bytes of `word`, lowest first.
pub open spec fn word_bytes(word: u32) -> Seq<u8> {
    seq![
        (word % 0x100) as u8,
        (word / 0x100 % 0x100) as u8,
        (word / 0x1_0000 % 0x100) as u8,
        (word / 0x100_0000) as u8,
    ]
}

impl LPMTrieKey {
    /// The bytes that the kernel reads the key from: the prefix length as a
    /// little-endian word, then the data.
    pub open spec fn wire(&self) -> Seq<u8> {
        word_bytes(self.prefixlen) + self.data@
    }

    /// Lays the key out as the kernel reads it.
    pub fn to_bytes(&self) -> (bytes: Vec<u8>)
        ensures
            bytes@ == self.wire(),
    {
        let word: u32 = self.prefixlen;
        let mut bytes: Vec<u8> = Vec::new();
        bytes.push((word % 0x100) as u8);
        bytes.push((word / 0x100 % 0x100) as u8);
        bytes.push((word / 0x1_0000 % 0x100) as u8);
        bytes.push((word / 0x100_0000) as u8);
        assert(bytes@ =~= word_bytes(word));
        let mut i: usize = 0;
        while i < self.data.len()
            invariant
                i <= self.data@.len(),
                bytes@ == word_bytes(word) + self.data@.subrange(0, i as int),
            decreases self.data@.len() - i,
        {
            bytes.push(self.data[i]);
            i += 1;
            assert(bytes@ =~= word_bytes(word) + self.data@.subrange(0, i as int));
        }
        assert(self.data@.subrange(0, i as int) =~= self.data@);
        bytes
    }

    /// The prefix length is read back from the start of a key's bytes as a
    /// record's field is, and the data follows it unchanged.
    pub proof fn lemma_wire(&self)
        ensures
            self.wire().len() == 4 + self.data@.len(),
            field_at(self.wire(), 0) == self.prefixlen,
            self.wire().subrange(4, self.wire().len() as int) == self.data@,
    {
        assert(self.wire().subrange(4, self.wire().len() as int) =~= self.data@);
    }

    /// `data` is long enough to hold `prefixlen` bits.
    pub open spec fn wf(&self) -> bool {
        self.prefixlen <= 8 * self.data@.len()
    }

    /// Tests whether `data` is long enough to hold `prefixlen` bits.
    pub fn is_wf(&self) -> (r: bool)
        ensures
            r == self.wf(),
    {
        let bytes: usize = self.data.len();
        let bits: usize = self.prefixlen as usize;
        bytes >= bits / 8 && (bits % 8 == 0 || bytes > bits / 8)
    }
}

impl<'base, K: Clone, V: Clone> LPMTrieMap<'base, K, V> {
    /// The descriptor this view borrows.
    pub closed spec fn base(&self) -> &MapDescriptor {
        self.base
    }

    /// The handle of the underlying map.
    pub open spec fn fd(&self) -> i32 {
        self.base().fd
    }

    /// A view exists only over a map whose declared sizes are those of `K` and `V`.
    pub open spec fn wf(&self) -> bool {
        layout_matches::<K, V>(self.base())
    }

    /// Binds `base` to the shapes `K` and `V`. Fails with `LayoutMismatch`
    /// exactly when the size of `K` or of `V` differs from what `base` declares.
    pub fn new<'a>(base: &'a MapDescriptor) -> (r: Result<LPMTrieMap<'a, K, V>, Error>)
        ensures
            layout_matches::<K, V>(base) ==> (r matches Ok(view) && view.base() == base
                && view.wf()),
            !layout_matches::<K, V>(base) ==> (r matches Err(e) && e == Error::LayoutMismatch),
    {
        match check_layout::<K, V>(base) {
            Ok(()) => Ok(LPMTrieMap { base, _k: PhantomData, _v: PhantomData }),
            Err(e) => Err(e),
        }
    }

    /// The call that stores `value` under the prefix, which is handed on as it is.
    pub fn set<'k>(&self, prefix_key: &'k LPMTrieKey, value: V) -> (call: Call<&'k LPMTrieKey, V>)
        ensures
            call == (Call::Update { fd: self.fd(), key: prefix_key, value, flags: 0 }),
    {
        Call::Update { fd: self.base.fd, key: prefix_key, value, flags: 0 }
    }

    /// The call that reads the value of the longest stored prefix covering
    /// `prefix_key`; `get` interprets its answer.
    pub fn lookup<'k>(&self, prefix_key: &'k LPMTrieKey) -> (call: Call<&'k LPMTrieKey, V>)
        ensures
            call == (Call::<&'k LPMTrieKey, V>::Lookup {
                fd: self.fd(),
                key: prefix_key,
                slots: 1,
            }),
    {
        Call::Lookup { fd: self.base.fd, key: prefix_key, slots: 1 }
    }

    /// The value that a lookup found: `ret` is the lookup's return code and
    /// `value` the buffer it was given. Any negative `ret` is a miss.
    pub fn get(&self, ret: i32, value: V) -> (r: Option<V>)
        ensures
            r == found(ret, value),
    {
        reply(ret, value)
    }

    /// The call that removes the prefix. Its result is not looked at.
    pub fn delete<'k>(&self, prefix_key: &'k LPMTrieKey) -> (call: Call<&'k LPMTrieKey, V>)
        ensures
            call == (Call::<&'k LPMTrieKey, V>::Delete { fd: self.fd(), key: prefix_key }),
    {
        Call::Delete { fd: self.base.fd, key: prefix_key }
    }
}

} // verus!
