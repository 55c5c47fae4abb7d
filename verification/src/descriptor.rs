use crate::error::Error;
use vstd::prelude::*;
use vstd::slice::slice_subrange;
use vstd::string::StringSliceAdditionalSpecFns;

verus! {

/// The number of bytes of a configuration record.
pub const MAP_DEF_LEN: usize = 20;

/// The geometry a map is created with, as its configuration record gives it.
#[derive(Debug, Clone, Copy, PartialEq, Eq, Structural)]
pub struct MapDef {
    pub type_: u32,
    pub key_size: u32,
    pub value_size: u32,
    pub max_entries: u32,
    pub map_flags: u32,
}

/// The unsigned 32-bit number whose little-endian bytes are `bytes[at..at + 4]`.
pub open spec fn field_at(bytes: Seq<u8>, at: int) -> int {
    bytes[at] as int + bytes[at + 1] as int * 0x100 + bytes[at + 2] as int * 0x1_0000 + bytes[at
        + 3] as int * 0x100_0000
}

/// The byte at the start of `input`, read by `zero::read` as a `u8`.
///
/// Believed, not proved: `zero::read` hands back the value that the leading
/// bytes of its input hold. It asserts that the input is as long as the value
/// and aligned for it: for a single byte the first is the `requires` here,
/// and the second holds of every buffer.
#[verifier::external_body]
fn read_byte(input: &[u8]) -> (b: u8)
    requires
        input@.len() >= 1,
    ensures
        b == input@[0],
{
    *zero::read::<u8>(input)
}

/// Reads one field of a record.
pub fn read_field(code: &[u8], at: usize) -> (r: u32)
    requires
        at + 4 <= code@.len(),
    ensures
        r as int == field_at(code@, at as int),
{
    let end: usize = code.len();
    let b0: u32 = read_byte(slice_subrange(code, at, end)) as u32;
    let b1: u32 = read_byte(slice_subrange(code, at + 1, end)) as u32;
    let b2: u32 = read_byte(slice_subrange(code, at + 2, end)) as u32;
    let b3: u32 = read_byte(slice_subrange(code, at + 3, end)) as u32;
    b0 + b1 * 0x100 + b2 * 0x1_0000 + b3 * 0x100_0000
}

impl MapDef {
    /// The record that the first twenty bytes of `code` hold: five fields of
    /// four bytes each, in the order type, key size, value size, capacity, flags.
    pub open spec fn parse(code: Seq<u8>) -> MapDef {
        MapDef {
            type_: field_at(code, 0) as u32,
            key_size: field_at(code, 4) as u32,
            value_size: field_at(code, 8) as u32,
            max_entries: field_at(code, 12) as u32,
            map_flags: field_at(code, 16) as u32,
        }
    }

    /// Reads the record at the start of `code`. Bytes after it are ignored.
    pub fn read(code: &[u8]) -> (def: MapDef)
        requires
            code@.len() >= MAP_DEF_LEN,
        ensures
            def == MapDef::parse(code@),
    {
        MapDef {
            type_: read_field(code, 0),
            key_size: read_field(code, 4),
            value_size: read_field(code, 8),
            max_entries: read_field(code, 12),
            map_flags: read_field(code, 16),
        }
    }
}

/// A kernel map: its handle and the geometry it was created with.
#[derive(Debug, Clone)]
pub struct MapDescriptor {
    pub name: String,
    pub kind: u32,
    pub fd: i32,
    pub config: MapDef,
}

/// Whether `name` can be handed to the kernel: it holds no NUL byte.
pub open spec fn name_ok(name: &str) -> bool {
    !name.spec_bytes().contains(0u8)
}

/// Tests a map's name for NUL bytes.
pub fn check_name(name: &str) -> (r: Result<(), Error>)
    ensures
        r == (if name_ok(name) {
            Ok::<(), Error>(())
        } else {
            Err::<(), Error>(Error::StringConversion)
        }),
{
    let bytes = name.as_bytes();
    let mut i: usize = 0;
    while i < bytes.len()
        invariant
            i <= bytes@.len(),
            bytes@ == name.spec_bytes(),
            forall|j: int| 0 <= j < i ==> bytes@[j] != 0u8,
        decreases bytes@.len() - i,
    {
        if bytes[i] == 0 {
            return Err(Error::StringConversion);
        }
        i += 1;
    }
    Ok(())
}

impl MapDescriptor {
    /// The handle is one that map creation gave out, and the kind is that of
    /// the geometry.
    pub open spec fn wf(self) -> bool {
        self.fd >= 0 && self.kind == self.config.type_
    }

    /// What `load` returns for a name, a record and the handle `fd` that map
    /// creation gave back.
    pub open spec fn loaded(self, name: &str, code: Seq<u8>, fd: i32) -> bool {
        &&& self.wf()
        &&& self.name@ == name@
        &&& self.kind == MapDef::parse(code).type_
        &&& self.fd == fd
        &&& self.config == MapDef::parse(code)
    }

    /// The first half of loading: the geometry to create the map with.
    ///
    /// Fails with `StringConversion`, before anything is created, exactly when
    /// the name holds a NUL byte.
    pub fn prepare(name: &str, code: &[u8]) -> (r: Result<MapDef, Error>)
        requires
            code@.len() >= MAP_DEF_LEN,
        ensures
            name_ok(name) ==> r == Ok::<MapDef, Error>(MapDef::parse(code@)),
            !name_ok(name) ==> r == Err::<MapDef, Error>(Error::StringConversion),
    {
        let config = MapDef::read(code);
        match check_name(name) {
            Ok(()) => Ok(config),
            Err(e) => Err(e),
        }
    }

    /// The second half of loading: `fd` is what map creation returned for the
    /// geometry that `prepare` gave. A negative `fd` is a refusal.
    pub fn load(name: &str, code: &[u8], fd: i32) -> (r: Result<MapDescriptor, Error>)
        requires
            code@.len() >= MAP_DEF_LEN,
        ensures
            !name_ok(name) ==> (r matches Err(e) && e == Error::StringConversion),
            name_ok(name) && fd < 0 ==> (r matches Err(e) && e == Error::MapCreationFailed),
            name_ok(name) && fd >= 0 ==> (r matches Ok(m) && m.loaded(name, code@, fd)),
    {
        let config = match MapDescriptor::prepare(name, code) {
            Ok(config) => config,
            Err(e) => { return Err(e); },
        };
        if fd < 0 {
            Err(Error::MapCreationFailed)
        } else {
            Ok(MapDescriptor { name: name.to_owned(), kind: config.type_, fd, config })
        }
    }
}

} // verus!
