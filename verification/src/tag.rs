//! The type-tag enumeration: the single leading byte of every encoded value
//! names the decoding rule that applies to the bytes that follow.

use vstd::prelude::*;

verus! {

/// Semantic tag of the next encoded value, read from its leading byte.
///
/// Any byte outside the recognized set maps to `Illegal`, which is a valid
/// enumeration value in itself; dispatching on it is what fails, with an
/// unrecognized-tag error.
#[derive(Clone, Copy, PartialEq, Eq, Structural, Debug)]
pub enum DataTypePrefix {
    /// `i`: 4-byte little-endian signed integer.
    Int32,
    /// `g`: 8-byte little-endian IEEE-754 double.
    BinFloat,
    /// `z`: 1 length byte, then that many text bytes.
    ShortAscii,
    /// `Z`: same layout as `ShortAscii`.
    ShortAsciiInterned,
    /// `s`: 4-byte little-endian length, then that many raw bytes.
    Str,
    /// `u`: same layout as `Str`, decoded as text.
    Unicode,
    /// `T`: boolean true, no further bytes.
    True,
    /// `F`: boolean false, no further bytes.
    False,
    /// `)`: 1 length byte, then that many encoded elements.
    SmallTuple,
    /// `(`: 4-byte little-endian length, then that many encoded elements.
    Tuple,
    /// `c`: a code unit (see the code-unit field layout).
    Code,
    /// `N`: the absence marker, no further bytes.
    Nil,
    /// Any other byte: recognized as no value kind.
    Illegal,
}

/// The byte-to-tag mapping, as a pure function on the leading byte.
pub open spec fn spec_tag(b: u8) -> DataTypePrefix {
    match b {
        0x69 => DataTypePrefix::Int32,  // 'i'
        0x67 => DataTypePrefix::BinFloat,  // 'g'
        0x7A => DataTypePrefix::ShortAscii,  // 'z'
        0x5A => DataTypePrefix::ShortAsciiInterned,  // 'Z'
        0x73 => DataTypePrefix::Str,  // 's'
        0x75 => DataTypePrefix::Unicode,  // 'u'
        0x54 => DataTypePrefix::True,  // 'T'
        0x46 => DataTypePrefix::False,  // 'F'
        0x29 => DataTypePrefix::SmallTuple,  // ')'
        0x28 => DataTypePrefix::Tuple,  // '('
        0x63 => DataTypePrefix::Code,  // 'c'
        0x4E => DataTypePrefix::Nil,  // 'N'
        _ => DataTypePrefix::Illegal,
    }
}

impl DataTypePrefix {
    /// Classifies one leading byte.
    pub fn from_byte(b: u8) -> (r: DataTypePrefix)
        ensures
            r == spec_tag(b),
    {
        match b {
            0x69 => DataTypePrefix::Int32,
            0x67 => DataTypePrefix::BinFloat,
            0x7A => DataTypePrefix::ShortAscii,
            0x5A => DataTypePrefix::ShortAsciiInterned,
            0x73 => DataTypePrefix::Str,
            0x75 => DataTypePrefix::Unicode,
            0x54 => DataTypePrefix::True,
            0x46 => DataTypePrefix::False,
            0x29 => DataTypePrefix::SmallTuple,
            0x28 => DataTypePrefix::Tuple,
            0x63 => DataTypePrefix::Code,
            0x4E => DataTypePrefix::Nil,
            _ => DataTypePrefix::Illegal,
        }
    }
}

} // verus!
