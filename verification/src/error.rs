use vstd::prelude::*;

verus! {

/// Why a descriptor or a typed view could not be constructed.
#[derive(Debug, Clone, Copy, PartialEq, Eq, Structural)]
pub enum Error {
    /// The map's name holds a NUL byte and cannot be handed to the kernel.
    StringConversion,
    /// The kernel refused to create the map.
    MapCreationFailed,
    /// The size of a key or value type differs from the size the map declares.
    LayoutMismatch,
}

} // verus!
