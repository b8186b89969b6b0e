//! The mathematical model of decoding: what each byte stream means.
//!
//! Every decode step either succeeds with a value and the remaining suffix,
//! fails with a decode error, or runs off the end of the buffer (`Short`).
//! Running short is a contract violation of the caller, not a recoverable
//! decode error, so the executable decoder excludes it by precondition.

use vstd::prelude::*;

use vstd::bytes::spec_u32_from_le_bytes;
use vstd::bytes::spec_u64_from_le_bytes;
use vstd::utf8::decode_utf8;
use vstd::utf8::valid_utf8;

use crate::error::spec_bytes_error;
use crate::error::spec_type_error;
use crate::error::spec_unknown_tag_error;
use crate::error::spec_utf8_error;
use crate::error::ErrorModel;
use crate::error::Kind;
use crate::tag::spec_tag;
use crate::tag::DataTypePrefix;
use crate::value::spec_kind_of;
use crate::value::CodeModel;
use crate::value::ValueModel;

verus! {

/// The format version from which a code unit carries an explicit
/// positional-only argument count.
pub const POSONLY_MIN_VERSION: u32 = 3413;

/// The outcome of one decode step: a result with the remaining suffix, a
/// decode error, or a buffer underrun.
pub enum Parsed<T> {
    Done { val: T, rest: Seq<u8> },
    Fail { err: ErrorModel },
    Short,
}

/// The signed 32-bit integer held by 4 little-endian bytes.
pub open spec fn spec_i32_le(s: Seq<u8>) -> i32 {
    let u = spec_u32_from_le_bytes(s);
    if u >= 0x8000_0000 {
        (u as int - 0x1_0000_0000) as i32
    } else {
        u as i32
    }
}

/// What a raw-bytes read means: the long-string tag, a 4-byte little-endian
/// length, then that many bytes, handed through without interpretation.
pub open spec fn spec_decode_bytes(s: Seq<u8>) -> Parsed<Seq<u8>> {
    if s.len() < 1 {
        Parsed::Short
    } else if spec_tag(s[0]) != DataTypePrefix::Str {
        Parsed::Fail { err: spec_bytes_error() }
    } else {
        let t = s.skip(1);
        if t.len() < 4 {
            Parsed::Short
        } else {
            let n = spec_u32_from_le_bytes(t.take(4)) as int;
            let u = t.skip(4);
            if u.len() < n {
                Parsed::Short
            } else {
                Parsed::Done { val: u.take(n), rest: u.skip(n) }
            }
        }
    }
}

/// What one encoded value means, given the declared format version.
///
/// The leading tag byte is always consumed before anything else is looked
/// at; every arm then consumes exactly the bytes its tag requires.
pub open spec fn spec_decode(s: Seq<u8>, ver: u32) -> Parsed<ValueModel>
    decreases s.len(), 0int,
{
    if s.len() == 0 {
        Parsed::Short
    } else {
        let b = s[0];
        let t = s.skip(1);
        match spec_tag(b) {
            DataTypePrefix::Int32 => if t.len() < 4 {
                Parsed::Short
            } else {
                Parsed::Done { val: ValueModel::Int(spec_i32_le(t.take(4))), rest: t.skip(4) }
            },
            DataTypePrefix::BinFloat => if t.len() < 8 {
                Parsed::Short
            } else {
                Parsed::Done {
                    val: ValueModel::Float(spec_u64_from_le_bytes(t.take(8))),
                    rest: t.skip(8),
                }
            },
            DataTypePrefix::ShortAscii | DataTypePrefix::ShortAsciiInterned => if t.len() < 1 {
                Parsed::Short
            } else {
                let n = t[0] as int;
                let u = t.skip(1);
                if u.len() < n {
                    Parsed::Short
                } else if !valid_utf8(u.take(n)) {
                    Parsed::Fail { err: spec_utf8_error() }
                } else {
                    Parsed::Done { val: ValueModel::Str(decode_utf8(u.take(n))), rest: u.skip(n) }
                }
            },
            DataTypePrefix::Str | DataTypePrefix::Unicode => if t.len() < 4 {
                Parsed::Short
            } else {
                let n = spec_u32_from_le_bytes(t.take(4)) as int;
                let u = t.skip(4);
                if u.len() < n {
                    Parsed::Short
                } else if !valid_utf8(u.take(n)) {
                    Parsed::Fail { err: spec_utf8_error() }
                } else {
                    Parsed::Done { val: ValueModel::Str(decode_utf8(u.take(n))), rest: u.skip(n) }
                }
            },
            DataTypePrefix::True => Parsed::Done { val: ValueModel::True, rest: t },
            DataTypePrefix::False => Parsed::Done { val: ValueModel::False, rest: t },
            DataTypePrefix::SmallTuple => if t.len() < 1 {
                Parsed::Short
            } else {
                match spec_decode_many(t.skip(1), ver, t[0] as int) {
                    Parsed::Done { val, rest } => Parsed::Done {
                        val: ValueModel::Arr(val),
                        rest,
                    },
                    Parsed::Fail { err } => Parsed::Fail { err },
                    Parsed::Short => Parsed::Short,
                }
            },
            DataTypePrefix::Tuple => if t.len() < 4 {
                Parsed::Short
            } else {
                match spec_decode_many(t.skip(4), ver, spec_u32_from_le_bytes(t.take(4)) as int) {
                    Parsed::Done { val, rest } => Parsed::Done {
                        val: ValueModel::Arr(val),
                        rest,
                    },
                    Parsed::Fail { err } => Parsed::Fail { err },
                    Parsed::Short => Parsed::Short,
                }
            },
            DataTypePrefix::Code => match spec_decode_code(t, ver) {
                Parsed::Done { val, rest } => Parsed::Done { val: ValueModel::Code(val), rest },
                Parsed::Fail { err } => Parsed::Fail { err },
                Parsed::Short => Parsed::Short,
            },
            DataTypePrefix::Nil => Parsed::Done { val: ValueModel::Nil, rest: t },
            DataTypePrefix::Illegal => Parsed::Fail { err: spec_unknown_tag_error(b) },
        }
    }
}

/// What `k` consecutive encoded values mean, in stream order.
pub open spec fn spec_decode_many(s: Seq<u8>, ver: u32, k: int) -> Parsed<Seq<ValueModel>>
    decreases s.len(), 1int,
{
    if k <= 0 {
        Parsed::Done { val: Seq::empty(), rest: s }
    } else {
        match spec_decode(s, ver) {
            Parsed::Done { val, rest } => if rest.len() < s.len() {
                match spec_decode_many(rest, ver, k - 1) {
                    Parsed::Done { val: vals, rest: r } => Parsed::Done {
                        val: seq![val] + vals,
                        rest: r,
                    },
                    Parsed::Fail { err } => Parsed::Fail { err },
                    Parsed::Short => Parsed::Short,
                }
            } else {
                // a decoded value always consumes at least its tag byte,
                // so this branch is never the meaning of any stream
                Parsed::Short
            },
            Parsed::Fail { err } => Parsed::Fail { err },
            Parsed::Short => Parsed::Short,
        }
    }
}

/// What "decode a value and require a sequence" means.  The mismatch
/// error names the sequence kind as expected and carries the found kind.
pub open spec fn spec_decode_arr(s: Seq<u8>, ver: u32) -> Parsed<Seq<ValueModel>>
    decreases s.len(), 1int,
{
    match spec_decode(s, ver) {
        Parsed::Done { val, rest } => match val {
            ValueModel::Arr(vs) => Parsed::Done { val: vs, rest },
            _ => Parsed::Fail { err: spec_type_error(Kind::Array, spec_kind_of(val)) },
        },
        Parsed::Fail { err } => Parsed::Fail { err },
        Parsed::Short => Parsed::Short,
    }
}

/// What "decode a value and require text" means.
pub open spec fn spec_decode_str(s: Seq<u8>, ver: u32) -> Parsed<Seq<char>>
    decreases s.len(), 1int,
{
    match spec_decode(s, ver) {
        Parsed::Done { val, rest } => match val {
            ValueModel::Str(text) => Parsed::Done { val: text, rest },
            _ => Parsed::Fail { err: spec_type_error(Kind::Str, spec_kind_of(val)) },
        },
        Parsed::Fail { err } => Parsed::Fail { err },
        Parsed::Short => Parsed::Short,
    }
}

/// Requires every element of a decoded sequence to be text; fails on the
/// first element, in stream order, that is not.
pub open spec fn spec_strs_of(vs: Seq<ValueModel>) -> Result<Seq<Seq<char>>, ErrorModel>
    decreases vs.len(),
{
    if vs.len() == 0 {
        Result::Ok(Seq::empty())
    } else {
        match vs[0] {
            ValueModel::Str(t) => match spec_strs_of(vs.skip(1)) {
                Result::Ok(r) => Result::Ok(seq![t] + r),
                Result::Err(e) => Result::Err(e),
            },
            _ => Result::Err(spec_type_error(Kind::Str, spec_kind_of(vs[0]))),
        }
    }
}

/// When every element of a sequence is text, requiring text of each element
/// succeeds, element by element in order.
pub proof fn lemma_strs_of_ok(vs: Seq<ValueModel>)
    requires
        forall|i: int| 0 <= i < vs.len() ==> #[trigger] vs[i] is Str,
    ensures
        spec_strs_of(vs) is Ok,
        spec_strs_of(vs)->Ok_0.len() == vs.len(),
        forall|i: int|
            0 <= i < vs.len() ==> #[trigger] spec_strs_of(vs)->Ok_0[i] == vs[i]->Str_0,
    decreases vs.len(),
{
    if vs.len() > 0 {
        lemma_strs_of_ok(vs.skip(1));
        assert(vs[0] is Str);
        assert forall|i: int|
            0 <= i < vs.len() implies #[trigger] spec_strs_of(vs)->Ok_0[i] == vs[i]->Str_0 by {
            if i > 0 {
                assert(spec_strs_of(vs.skip(1))->Ok_0[i - 1] == vs.skip(1)[i - 1]->Str_0);
            }
        }
    }
}

/// When the first non-text element of a sequence stands at `k`, requiring
/// text of each element fails with the mismatch error for that element.
pub proof fn lemma_strs_of_err(vs: Seq<ValueModel>, k: int)
    requires
        0 <= k < vs.len(),
        forall|i: int| 0 <= i < k ==> #[trigger] vs[i] is Str,
        !(vs[k] is Str),
    ensures
        spec_strs_of(vs) == Result::<Seq<Seq<char>>, ErrorModel>::Err(
            spec_type_error(Kind::Str, spec_kind_of(vs[k])),
        ),
    decreases k,
{
    if k > 0 {
        assert(vs[0] is Str);
        lemma_strs_of_err(vs.skip(1), k - 1);
    }
}

/// What "decode a value and require a sequence of text values" means.
pub open spec fn spec_decode_str_vec(s: Seq<u8>, ver: u32) -> Parsed<Seq<Seq<char>>>
    decreases s.len(), 1int,
{
    match spec_decode(s, ver) {
        Parsed::Done { val, rest } => match val {
            ValueModel::Arr(vs) => match spec_strs_of(vs) {
                Result::Ok(strs) => Parsed::Done { val: strs, rest },
                Result::Err(e) => Parsed::Fail { err: e },
            },
            _ => Parsed::Fail { err: spec_type_error(Kind::StrArray, spec_kind_of(val)) },
        },
        Parsed::Fail { err } => Parsed::Fail { err },
        Parsed::Short => Parsed::Short,
    }
}

/// A partial element decode, as seen from the middle of a sequence: the
/// elements already decoded stand in front of whatever the rest yields.
pub open spec fn spec_many_with_prefix(
    prefix: Seq<ValueModel>,
    sub: Parsed<Seq<ValueModel>>,
) -> Parsed<Seq<ValueModel>> {
    match sub {
        Parsed::Done { val, rest } => Parsed::Done { val: prefix + val, rest },
        Parsed::Fail { err } => Parsed::Fail { err },
        Parsed::Short => Parsed::Short,
    }
}

/// What a code unit means: a fixed sequence of sub-fields, strictly in
/// stream order, with the positional-only argument count present only from
/// `POSONLY_MIN_VERSION` on and 0 otherwise.
pub open spec fn spec_decode_code(s: Seq<u8>, ver: u32) -> Parsed<CodeModel>
    decreases s.len(), 2int,
{
    let gated = ver >= POSONLY_MIN_VERSION;
    let hdr: int = if gated {
        24
    } else {
        20
    };
    if s.len() < hdr {
        Parsed::Short
    } else {
        let argcount = spec_u32_from_le_bytes(s.take(4));
        let s_a = s.skip(4);
        let posonlyargcount = if gated {
            spec_u32_from_le_bytes(s_a.take(4))
        } else {
            0u32
        };
        let s_b = if gated {
            s_a.skip(4)
        } else {
            s_a
        };
        let kwonlyargcount = spec_u32_from_le_bytes(s_b.take(4));
        let s_c = s_b.skip(4);
        let nlocals = spec_u32_from_le_bytes(s_c.take(4));
        let s_d = s_c.skip(4);
        let stacksize = spec_u32_from_le_bytes(s_d.take(4));
        let s_e = s_d.skip(4);
        let flags = spec_u32_from_le_bytes(s_e.take(4));
        let s1 = s_e.skip(4);
        match spec_decode_bytes(s1) {
            Parsed::Done { val: code, rest: s2 } => if s2.len() >= s1.len() {
                Parsed::Short
            } else {
                match spec_decode_arr(s2, ver) {
                    Parsed::Done { val: consts, rest: s3 } => if s3.len() >= s2.len() {
                        Parsed::Short
                    } else {
                        spec_decode_code_names(
                            s,
                            ver,
                            argcount,
                            posonlyargcount,
                            kwonlyargcount,
                            nlocals,
                            stacksize,
                            flags,
                            code,
                            consts,
                            s3,
                        )
                    },
                    Parsed::Fail { err } => Parsed::Fail { err },
                    Parsed::Short => Parsed::Short,
                }
            },
            Parsed::Fail { err } => Parsed::Fail { err },
            Parsed::Short => Parsed::Short,
        }
    }
}

/// The tail of a code unit, from its first name list on.
pub open spec fn spec_decode_code_names(
    s: Seq<u8>,
    ver: u32,
    argcount: u32,
    posonlyargcount: u32,
    kwonlyargcount: u32,
    nlocals: u32,
    stacksize: u32,
    flags: u32,
    code: Seq<u8>,
    consts: Seq<ValueModel>,
    s3: Seq<u8>,
) -> Parsed<CodeModel>
    decreases s.len(), 1int,
{
    if s3.len() >= s.len() {
        Parsed::Short
    } else {
        match spec_decode_str_vec(s3, ver) {
            Parsed::Done { val: names, rest: s4 } => if s4.len() >= s3.len() {
                Parsed::Short
            } else {
                match spec_decode_str_vec(s4, ver) {
                    Parsed::Done { val: varnames, rest: s5 } => if s5.len() >= s4.len() {
                        Parsed::Short
                    } else {
                        match spec_decode_str_vec(s5, ver) {
                            Parsed::Done { val: freevars, rest: s6 } => if s6.len() >= s5.len() {
                                Parsed::Short
                            } else {
                                match spec_decode_str_vec(s6, ver) {
                                    Parsed::Done { val: cellvars, rest: s7 } => if s7.len()
                                        >= s6.len() {
                                        Parsed::Short
                                    } else {
                                        match spec_decode_str(s7, ver) {
                                            Parsed::Done { val: filename, rest: s8 } => if s8.len()
                                                >= s7.len() {
                                                Parsed::Short
                                            } else {
                                                match spec_decode_str(s8, ver) {
                                                    Parsed::Done { val: name, rest: s9 } => {
                                                        spec_decode_code_tail(
                                                            argcount,
                                                            posonlyargcount,
                                                            kwonlyargcount,
                                                            nlocals,
                                                            stacksize,
                                                            flags,
                                                            code,
                                                            consts,
                                                            names,
                                                            varnames,
                                                            freevars,
                                                            cellvars,
                                                            filename,
                                                            name,
                                                            s9,
                                                        )
                                                    },
                                                    Parsed::Fail { err } => Parsed::Fail { err },
                                                    Parsed::Short => Parsed::Short,
                                                }
                                            },
                                            Parsed::Fail { err } => Parsed::Fail { err },
                                            Parsed::Short => Parsed::Short,
                                        }
                                    },
                                    Parsed::Fail { err } => Parsed::Fail { err },
                                    Parsed::Short => Parsed::Short,
                                }
                            },
                            Parsed::Fail { err } => Parsed::Fail { err },
                            Parsed::Short => Parsed::Short,
                        }
                    },
                    Parsed::Fail { err } => Parsed::Fail { err },
                    Parsed::Short => Parsed::Short,
                }
            },
            Parsed::Fail { err } => Parsed::Fail { err },
            Parsed::Short => Parsed::Short,
        }
    }
}

/// The last two fields of a code unit: the first source line number and the
/// raw line-number table.
pub open spec fn spec_decode_code_tail(
    argcount: u32,
    posonlyargcount: u32,
    kwonlyargcount: u32,
    nlocals: u32,
    stacksize: u32,
    flags: u32,
    code: Seq<u8>,
    consts: Seq<ValueModel>,
    names: Seq<Seq<char>>,
    varnames: Seq<Seq<char>>,
    freevars: Seq<Seq<char>>,
    cellvars: Seq<Seq<char>>,
    filename: Seq<char>,
    name: Seq<char>,
    s9: Seq<u8>,
) -> Parsed<CodeModel> {
    if s9.len() < 4 {
        Parsed::Short
    } else {
        let firstlineno = spec_u32_from_le_bytes(s9.take(4));
        let s10 = s9.skip(4);
        match spec_decode_bytes(s10) {
            Parsed::Done { val: lnotab, rest: s11 } => Parsed::Done {
                val: CodeModel {
                    argcount,
                    posonlyargcount,
                    kwonlyargcount,
                    nlocals,
                    stacksize,
                    flags,
                    code,
                    consts,
                    names,
                    varnames,
                    freevars,
                    cellvars,
                    filename,
                    name,
                    firstlineno,
                    lnotab,
                },
                rest: s11,
            },
            Parsed::Fail { err } => Parsed::Fail { err },
            Parsed::Short => Parsed::Short,
        }
    }
}

} // verus!
