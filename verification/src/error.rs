//! The uniform failure type of the decoder, and the value-kind names that a
//! type-mismatch error carries.

use vstd::prelude::*;
use vstd::string::StringExecFns;

verus! {

/// The kind of a decoded value, as named inside a type-mismatch error.
///
/// `StrArray` stands for the expected kind "sequence of text values" that the
/// name-list fields of a code unit require.
#[derive(Clone, Copy, PartialEq, Eq, Structural, Debug)]
pub enum Kind {
    Int,
    Float,
    Bool,
    Str,
    Array,
    StrArray,
    Dict,
    Code,
    NoneType,
}

/// The display name of a value kind, used in error descriptions.
pub open spec fn spec_kind_name(k: Kind) -> Seq<char> {
    match k {
        Kind::Int => "Int"@,
        Kind::Float => "Float"@,
        Kind::Bool => "Bool"@,
        Kind::Str => "Str"@,
        Kind::Array => "Array"@,
        Kind::StrArray => "[Str; _]"@,
        Kind::Dict => "Dict"@,
        Kind::Code => "Code"@,
        Kind::NoneType => "NoneType"@,
    }
}

/// Returns the display name of `k`.
pub fn kind_name(k: Kind) -> (r: &'static str)
    ensures
        r@ == spec_kind_name(k),
{
    match k {
        Kind::Int => "Int",
        Kind::Float => "Float",
        Kind::Bool => "Bool",
        Kind::Str => "Str",
        Kind::Array => "Array",
        Kind::StrArray => "[Str; _]",
        Kind::Dict => "Dict",
        Kind::Code => "Code",
        Kind::NoneType => "NoneType",
    }
}

/// The mathematical content of a `DeserializeError`: its numeric code, its
/// origin tag and its description.
pub struct ErrorModel {
    pub errno: int,
    pub caused_by: Seq<char>,
    pub desc: Seq<char>,
}

/// The error produced when a fully decoded value does not match the kind the
/// caller required.
pub open spec fn spec_type_error(expect: Kind, found: Kind) -> ErrorModel {
    ErrorModel {
        errno: 0,
        caused_by: "Deserializer::type_error"@,
        desc: "expect a "@ + spec_kind_name(expect) + " object, but the deserialized object is "@
            + spec_kind_name(found),
    }
}

/// The error produced when the leading byte maps to no recognized tag.
pub open spec fn spec_unknown_tag_error(b: u8) -> ErrorModel {
    ErrorModel {
        errno: 0,
        caused_by: "Deserializer::deserialize_const"@,
        desc: "cannot deserialize this object: "@ + seq![b as char],
    }
}

/// The error produced when a byte span that was required to be text is not
/// valid UTF-8.
pub open spec fn spec_utf8_error() -> ErrorModel {
    ErrorModel { errno: 0, caused_by: "Str::try_from"@, desc: "invalid utf-8 sequence"@ }
}

/// The error produced when a raw-bytes read does not find the long-string tag.
pub open spec fn spec_bytes_error() -> ErrorModel {
    ErrorModel {
        errno: 0,
        caused_by: "Deserializer::deserialize_bytes"@,
        desc: "failed to load bytes"@,
    }
}

/// The error a host reports for a container it cannot make sense of.
pub open spec fn spec_file_broken_error() -> ErrorModel {
    ErrorModel {
        errno: 0,
        caused_by: "DeserializeError::file_broken_error"@,
        desc: "the loaded .pyc file is broken"@,
    }
}

/// A decode failure: a numeric code, an origin tag, and a description.
#[derive(Debug)]
pub struct DeserializeError {
    pub errno: usize,
    pub caused_by: String,
    pub desc: String,
}

impl View for DeserializeError {
    type V = ErrorModel;

    open spec fn view(&self) -> ErrorModel {
        ErrorModel {
            errno: self.errno as int,
            caused_by: self.caused_by@,
            desc: self.desc@,
        }
    }
}

pub type DeserializeResult<T> = Result<T, DeserializeError>;

/// Relies on String::push: appends exactly one character at the end of the
/// string.
#[verifier::external_body]
fn push_char(s: &mut String, c: char)
    ensures
        final(s)@ == old(s)@ + seq![c],
{
    s.push(c);
}

impl DeserializeError {
    /// Builds an error from its three parts.
    pub fn new(errno: usize, caused_by: &str, desc: &str) -> (r: Self)
        ensures
            r@ == (ErrorModel { errno: errno as int, caused_by: caused_by@, desc: desc@ }),
    {
        DeserializeError {
            errno,
            caused_by: String::from_str(caused_by),
            desc: String::from_str(desc),
        }
    }

    /// The error a host reports for a broken container file.
    pub fn file_broken_error() -> (r: Self)
        ensures
            r@ == spec_file_broken_error(),
    {
        DeserializeError::new(0, "DeserializeError::file_broken_error",
            "the loaded .pyc file is broken")
    }

    /// The error for a decoded value of kind `found` where `expect` was
    /// required.
    pub fn type_error(expect: Kind, found: Kind) -> (r: Self)
        ensures
            r@ == spec_type_error(expect, found),
    {
        let desc = String::from_str("expect a ").concat(kind_name(expect)).concat(
            " object, but the deserialized object is ",
        ).concat(kind_name(found));
        DeserializeError {
            errno: 0,
            caused_by: String::from_str("Deserializer::type_error"),
            desc,
        }
    }

    /// The error for a leading byte that names no recognized tag.
    pub fn unknown_tag_error(b: u8) -> (r: Self)
        ensures
            r@ == spec_unknown_tag_error(b),
    {
        let mut desc = String::from_str("cannot deserialize this object: ");
        push_char(&mut desc, b as char);
        DeserializeError {
            errno: 0,
            caused_by: String::from_str("Deserializer::deserialize_const"),
            desc,
        }
    }

    /// The error for a byte span that is not valid UTF-8.
    pub fn utf8_error() -> (r: Self)
        ensures
            r@ == spec_utf8_error(),
    {
        DeserializeError::new(0, "Str::try_from", "invalid utf-8 sequence")
    }

    /// The error for a raw-bytes read whose leading byte is not the
    /// long-string tag.
    pub fn bytes_error() -> (r: Self)
        ensures
            r@ == spec_bytes_error(),
    {
        DeserializeError::new(0, "Deserializer::deserialize_bytes", "failed to load bytes")
    }
}

} // verus!
