//! The decoder's general guarantees, stated and proved once and for all
//! inputs: round trips for the scalar encodings, determinism of text
//! decoding, the empty tuple, version gating, and the unrecognized tag.

use vstd::bytes::lemma_auto_spec_u32_to_from_le_bytes;
use vstd::bytes::lemma_auto_spec_u64_to_from_le_bytes;
use vstd::bytes::spec_u32_from_le_bytes;
use vstd::bytes::spec_u32_to_le_bytes;
use vstd::bytes::spec_u64_to_le_bytes;
use vstd::prelude::*;
use vstd::utf8::decode_utf8;
use vstd::utf8::valid_utf8;

use crate::error::spec_unknown_tag_error;
use crate::error::spec_utf8_error;
use crate::model::spec_decode;
use crate::model::spec_decode_code;
use crate::model::Parsed;
use crate::model::POSONLY_MIN_VERSION;
use crate::tag::spec_tag;
use crate::tag::DataTypePrefix;
use crate::value::ValueModel;

verus! {

/// The 4 little-endian bytes that encode a signed 32-bit integer, in two's
/// complement.
pub open spec fn spec_i32_to_le_bytes(n: i32) -> Seq<u8> {
    spec_u32_to_le_bytes(
        (if n >= 0 {
            n as int
        } else {
            n as int + 0x1_0000_0000
        }) as u32,
    )
}

/// Round trip for integers: for any signed 32-bit integer, the integer tag
/// followed by its 4 little-endian bytes decodes back to that integer, and
/// consumes exactly those 5 bytes.
pub proof fn lemma_int_round_trip(n: i32, rest: Seq<u8>, ver: u32)
    ensures
        spec_decode(seq![0x69u8] + spec_i32_to_le_bytes(n) + rest, ver) == (Parsed::Done {
            val: ValueModel::Int(n),
            rest,
        }),
{
    lemma_auto_spec_u32_to_from_le_bytes();
    let enc = spec_i32_to_le_bytes(n);
    let s = seq![0x69u8] + enc + rest;
    let t = s.skip(1);
    assert(s[0] == 0x69u8);
    assert(t =~= enc + rest);
    assert(t.take(4) =~= enc);
    assert(t.skip(4) =~= rest);
    assert(crate::model::spec_i32_le(enc) == n);
}

/// Round trip for floats: for any 64-bit IEEE-754 bit pattern, the float
/// tag followed by its 8 little-endian bytes decodes back to a float with
/// exactly those bits, and consumes exactly those 9 bytes.
pub proof fn lemma_float_round_trip(bits: u64, rest: Seq<u8>, ver: u32)
    ensures
        spec_decode(seq![0x67u8] + spec_u64_to_le_bytes(bits) + rest, ver) == (Parsed::Done {
            val: ValueModel::Float(bits),
            rest,
        }),
{
    lemma_auto_spec_u64_to_from_le_bytes();
    let enc = spec_u64_to_le_bytes(bits);
    let s = seq![0x67u8] + enc + rest;
    let t = s.skip(1);
    assert(s[0] == 0x67u8);
    assert(t =~= enc + rest);
    assert(t.take(8) =~= enc);
    assert(t.skip(8) =~= rest);
}

/// What a short-text payload means: the short-text tag, one length byte and
/// that many bytes decode to the text those bytes spell when they are valid
/// UTF-8, and to the malformed-text error when they are not.
pub proof fn lemma_short_text(bytes: Seq<u8>, rest: Seq<u8>, ver: u32)
    requires
        bytes.len() < 256,
    ensures
        spec_decode(seq![0x7Au8, bytes.len() as u8] + bytes + rest, ver) == (if valid_utf8(
            bytes,
        ) {
            Parsed::Done { val: ValueModel::Str(decode_utf8(bytes)), rest }
        } else {
            Parsed::Fail { err: spec_utf8_error() }
        }),
{
    let s = seq![0x7Au8, bytes.len() as u8] + bytes + rest;
    let t = s.skip(1);
    assert(s[0] == 0x7Au8);
    assert(t =~= seq![bytes.len() as u8] + bytes + rest);
    assert(t[0] == bytes.len() as u8);
    let u = t.skip(1);
    assert(u =~= bytes + rest);
    assert(u.take(bytes.len() as int) =~= bytes);
    assert(u.skip(bytes.len() as int) =~= rest);
}

/// Text decode determinism, at the level of values: the same short-text
/// payload standing twice in one buffer decodes, step by step, to the same
/// text value both times.  (The session caches additionally collapse the
/// two results to one shared allocation; that is observed at run time, not
/// stated here.)
pub proof fn lemma_text_decode_deterministic(bytes: Seq<u8>, rest: Seq<u8>, ver: u32)
    requires
        bytes.len() < 256,
        valid_utf8(bytes),
    ensures
        ({
            let payload = seq![0x7Au8, bytes.len() as u8] + bytes;
            let first = spec_decode(payload + (payload + rest), ver);
            first matches Parsed::Done { val: v1, rest: r1 } && r1 == payload + rest
                && spec_decode(r1, ver) == (Parsed::Done { val: v1, rest })
        }),
{
    let payload = seq![0x7Au8, bytes.len() as u8] + bytes;
    assert(payload + (payload + rest) =~= seq![0x7Au8, bytes.len() as u8] + bytes + (payload
        + rest));
    lemma_short_text(bytes, payload + rest, ver);
    assert(payload + rest =~= seq![0x7Au8, bytes.len() as u8] + bytes + rest);
    lemma_short_text(bytes, rest, ver);
}

/// The empty tuple: the small-tuple tag with length byte 0 decodes to an
/// empty sequence and consumes exactly those 2 bytes, whatever follows.
pub proof fn lemma_empty_tuple(rest: Seq<u8>, ver: u32)
    ensures
        spec_decode(seq![0x29u8, 0u8] + rest, ver) == (Parsed::Done {
            val: ValueModel::Arr(Seq::empty()),
            rest,
        }),
{
    let s = seq![0x29u8, 0u8] + rest;
    let t = s.skip(1);
    assert(s[0] == 0x29u8);
    assert(t =~= seq![0u8] + rest);
    assert(t[0] == 0u8);
    assert(t.skip(1) =~= rest);
    assert(crate::model::spec_decode_many(rest, ver, 0) == (Parsed::Done {
        val: Seq::<ValueModel>::empty(),
        rest,
    }));
}

/// Version gating: below the threshold version a code unit carries no
/// positional-only count and the bytes after `argcount` are its
/// keyword-only count; from the threshold on, those same bytes are read as
/// the positional-only count instead.  The version is part of the decode
/// contract, not a hint.
pub proof fn lemma_version_gating(s: Seq<u8>, ver: u32)
    ensures
        ver < POSONLY_MIN_VERSION ==> (spec_decode_code(s, ver) matches Parsed::Done { val, rest }
            ==> val.posonlyargcount == 0 && val.kwonlyargcount == spec_u32_from_le_bytes(
            s.skip(4).take(4),
        )),
        ver >= POSONLY_MIN_VERSION ==> (spec_decode_code(s, ver) matches Parsed::Done { val, rest }
            ==> val.posonlyargcount == spec_u32_from_le_bytes(s.skip(4).take(4))
            && val.kwonlyargcount == spec_u32_from_le_bytes(s.skip(4).skip(4).take(4))),
{
}

/// The unrecognized tag: a buffer whose leading byte names no tag fails
/// with the unrecognized-tag error carrying exactly that byte, whatever
/// follows it.
pub proof fn lemma_unknown_tag(b: u8, rest: Seq<u8>, ver: u32)
    requires
        spec_tag(b) == DataTypePrefix::Illegal,
    ensures
        spec_decode(seq![b] + rest, ver) == (Parsed::<ValueModel>::Fail {
            err: spec_unknown_tag_error(b),
        }),
{
    let s = seq![b] + rest;
    assert(s[0] == b);
    assert(s.len() > 0);
}

} // verus!
