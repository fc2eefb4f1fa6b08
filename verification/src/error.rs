//! The ways in which decoding a class file can fail.

use vstd::prelude::*;

verus! {

/// Why a buffer could not be decoded. Decoding stops at the first failure.
#[derive(Clone, Copy, Debug, PartialEq, Eq, Structural)]
pub enum DecodeError {
    /// The buffer ended inside the structure being read.
    EndOfData,
    /// The constant pool announces a count of zero, which leaves no room
    /// for the one-based numbering of its entries.
    EmptyPoolCount,
    /// A constant-pool entry starts with a tag that is not supported.
    UnknownTag(u8),
    /// The payload of a text constant is not valid UTF-8.
    BadUtf8,
    /// A pool index does not lead to an entry of the kind that is needed.
    BadIndex(usize),
    /// An attribute whose name, found at this pool index, is not supported.
    UnknownAttribute(usize),
    /// A stack-map frame starts with a type byte that is not supported.
    UnknownFrameType(u8),
    /// A verification type starts with a tag that is not supported.
    UnknownVerificationType(u8),
    /// An instruction starts with an opcode that is not supported.
    UnknownOpcode(u8),
}

} // verus!
