//! The decoder itself: byte-cursor primitives, the three interning caches,
//! and the recursive value decoder with its typed entry points.

use std::rc::Rc;
use vstd::prelude::*;
use vstd::string::StringExecFns;

use crate::error::DeserializeError;
use crate::error::DeserializeResult;
use crate::error::Kind;
use crate::model::spec_decode;
use crate::model::spec_decode_arr;
use crate::model::spec_decode_bytes;
use crate::model::spec_decode_many;
use crate::model::spec_decode_str;
use crate::model::spec_decode_str_vec;
use crate::model::spec_many_with_prefix;
use crate::model::Parsed;
use crate::model::POSONLY_MIN_VERSION;
use crate::tag::spec_tag;
use crate::tag::DataTypePrefix;
use crate::value::CodeObj;
use crate::value::pair_seq_view;
use crate::value::pairs_eq;
use crate::value::rc_clone;
use crate::value::seq_view;
use crate::value::str_seq_view;
use crate::value::values_eq;
use crate::value::ValueModel;
use crate::value::ValueObj;

verus! {

/// Relies on String::from_utf8: succeeds exactly when the bytes are valid
/// UTF-8, and the resulting characters are their decoding.
#[verifier::external_body]
fn bytes_to_string(bytes: Vec<u8>) -> (r: Option<String>)
    ensures
        r is Some <==> vstd::utf8::valid_utf8(bytes@),
        r matches Some(s) ==> s@ == vstd::utf8::decode_utf8(bytes@),
{
    String::from_utf8(bytes).ok()
}

/// Removes and returns the first `n` bytes of the buffer.
#[verifier::loop_isolation(false)]
fn drain_front(v: &mut Vec<u8>, n: usize) -> (r: Vec<u8>)
    requires
        n <= old(v)@.len(),
    ensures
        r@ == old(v)@.take(n as int),
        final(v)@ == old(v)@.skip(n as int),
{
    let mut head: Vec<u8> = Vec::new();
    let mut i: usize = 0;
    while i < n
        invariant
            i <= n,
            v@ == old(v)@,
            head@ == old(v)@.take(i as int),
        decreases n - i,
    {
        head.push(v[i]);
        proof {
            assert(old(v)@.take((i + 1) as int) =~= old(v)@.take(i as int).push(old(v)@[i as int]));
        }
        i += 1;
    }
    let mut tail: Vec<u8> = Vec::new();
    let mut j: usize = n;
    while j < v.len()
        invariant
            n <= j <= v@.len(),
            v@ == old(v)@,
            tail@ == old(v)@.subrange(n as int, j as int),
        decreases v@.len() - j,
    {
        tail.push(v[j]);
        proof {
            assert(old(v)@.subrange(n as int, (j + 1) as int) =~= old(v)@.subrange(
                n as int,
                j as int,
            ).push(old(v)@[j as int]));
        }
        j += 1;
    }
    *v = tail;
    proof {
        assert(v@ =~= old(v)@.skip(n as int));
    }
    head
}

/// Removes and returns the first byte of the buffer.
fn take_byte(v: &mut Vec<u8>) -> (r: u8)
    requires
        old(v)@.len() >= 1,
    ensures
        r == old(v)@[0],
        final(v)@ == old(v)@.skip(1),
{
    let head = drain_front(v, 1);
    head[0]
}

/// Copies a slice of values; each copy shares its backing allocation with
/// the original element.
#[verifier::loop_isolation(false)]
fn clone_values(arr: &[ValueObj]) -> (r: Vec<ValueObj>)
    ensures
        r@.len() == arr@.len(),
        seq_view(r@) == seq_view(arr@),
{
    proof {
        crate::value::lemma_seq_view(arr@);
    }
    let mut r: Vec<ValueObj> = Vec::new();
    let mut i: usize = 0;
    while i < arr.len()
        invariant
            i <= arr@.len(),
            r@.len() == i,
            forall|j: int| 0 <= j < i ==> (#[trigger] r@[j])@ == arr@[j]@,
        decreases arr@.len() - i,
    {
        r.push(arr[i].duplicate());
        i += 1;
    }
    proof {
        crate::value::lemma_seq_view(r@);
        assert forall|j: int| 0 <= j < arr@.len() implies seq_view(r@)[j] == seq_view(arr@)[j] by {
            assert(r@[j]@ == arr@[j]@);
        }
        assert(seq_view(r@) =~= seq_view(arr@));
    }
    r
}

/// Copies a slice of pairs; each copy shares its backing allocations with
/// the original elements.
#[verifier::loop_isolation(false)]
fn clone_pairs(arr: &[(ValueObj, ValueObj)]) -> (r: Vec<(ValueObj, ValueObj)>)
    ensures
        r@.len() == arr@.len(),
        pair_seq_view(r@) == pair_seq_view(arr@),
{
    proof {
        crate::value::lemma_pair_seq_view(arr@);
    }
    let mut r: Vec<(ValueObj, ValueObj)> = Vec::new();
    let mut i: usize = 0;
    while i < arr.len()
        invariant
            i <= arr@.len(),
            r@.len() == i,
            forall|j: int|
                0 <= j < i ==> (#[trigger] r@[j]).0@ == arr@[j].0@ && r@[j].1@ == arr@[j].1@,
        decreases arr@.len() - i,
    {
        r.push((arr[i].0.duplicate(), arr[i].1.duplicate()));
        i += 1;
    }
    proof {
        crate::value::lemma_pair_seq_view(r@);
        assert forall|j: int|
            0 <= j < arr@.len() implies pair_seq_view(r@)[j] == pair_seq_view(arr@)[j] by {
            assert((r@[j]).0@ == arr@[j].0@ && (r@[j]).1@ == arr@[j].1@);
        }
        assert(pair_seq_view(r@) =~= pair_seq_view(arr@));
    }
    r
}

/// A decode session: the three interning caches, threaded through every
/// recursive call, so that structurally equal content decoded twice within
/// one session collapses to one shared allocation.
pub struct Deserializer {
    str_cache: Vec<Rc<String>>,
    arr_cache: Vec<Rc<Vec<ValueObj>>>,
    dict_cache: Vec<Rc<Vec<(ValueObj, ValueObj)>>>,
}

impl Deserializer {
    /// Each cache holds at most one entry per content: interning can never
    /// produce two structurally equal but distinct canonical instances.
    pub closed spec fn wf(&self) -> bool {
        &&& forall|i: int, j: int|
            0 <= i < j < self.str_cache@.len() ==> (#[trigger] self.str_cache@[i]@) != (
            #[trigger] self.str_cache@[j]@)
        &&& forall|i: int, j: int|
            0 <= i < j < self.arr_cache@.len() ==> seq_view(#[trigger] self.arr_cache@[i]@)
                != seq_view(#[trigger] self.arr_cache@[j]@)
        &&& forall|i: int, j: int|
            0 <= i < j < self.dict_cache@.len() ==> pair_seq_view(
                #[trigger] self.dict_cache@[i]@,
            ) != pair_seq_view(#[trigger] self.dict_cache@[j]@)
    }

    /// The caches only grow within a session: every canonical entry of
    /// `earlier`, once made, still stands, in its place.
    pub closed spec fn extends(&self, earlier: &Self) -> bool {
        &&& earlier.str_cache@.len() <= self.str_cache@.len()
        &&& forall|i: int|
            0 <= i < earlier.str_cache@.len() ==> #[trigger] self.str_cache@[i]
                == earlier.str_cache@[i]
        &&& earlier.arr_cache@.len() <= self.arr_cache@.len()
        &&& forall|i: int|
            0 <= i < earlier.arr_cache@.len() ==> #[trigger] self.arr_cache@[i]
                == earlier.arr_cache@[i]
        &&& earlier.dict_cache@.len() <= self.dict_cache@.len()
        &&& forall|i: int|
            0 <= i < earlier.dict_cache@.len() ==> #[trigger] self.dict_cache@[i]
                == earlier.dict_cache@[i]
    }

    /// Starts a fresh decode session with empty caches.
    pub fn new() -> (r: Self)
        ensures
            r.wf(),
    {
        Deserializer { str_cache: Vec::new(), arr_cache: Vec::new(), dict_cache: Vec::new() }
    }
}

impl Default for Deserializer {
    /// A fresh decode session, as `new` gives it.
    fn default() -> (r: Self)
        ensures
            r.wf(),
    {
        Deserializer::new()
    }
}

impl Deserializer {
    /// Interns a text value: the canonical shared instance for this content
    /// within the session.
    #[verifier::loop_isolation(false)]
    pub(crate) fn get_cached_str(&mut self, s: &str) -> (r: ValueObj)
        requires
            old(self).wf(),
        ensures
            final(self).wf(),
            final(self).extends(old(self)),
            r@ == ValueModel::Str(s@),
    {
        let owned = String::from_str(s);
        let mut i: usize = 0;
        while i < self.str_cache.len()
            invariant
                i <= self.str_cache@.len(),
                self == old(self),
                owned@ == s@,
                forall|j: int| 0 <= j < i ==> (#[trigger] self.str_cache@[j]@) != owned@,
            decreases self.str_cache@.len() - i,
        {
            if *self.str_cache[i] == owned {
                return ValueObj::Str(rc_clone(&self.str_cache[i]));
            }
            i += 1;
        }
        let rc = Rc::new(owned);
        self.str_cache.push(rc_clone(&rc));
        ValueObj::Str(rc)
    }

    /// Interns a sequence of values: the canonical shared instance for this
    /// content within the session.
    #[verifier::loop_isolation(false)]
    pub(crate) fn get_cached_arr(&mut self, arr: &[ValueObj]) -> (r: ValueObj)
        requires
            old(self).wf(),
        ensures
            final(self).wf(),
            final(self).extends(old(self)),
            r@ == ValueModel::Arr(seq_view(arr@)),
    {
        let owned = clone_values(arr);
        let mut i: usize = 0;
        while i < self.arr_cache.len()
            invariant
                i <= self.arr_cache@.len(),
                self == old(self),
                seq_view(owned@) == seq_view(arr@),
                forall|j: int| 0 <= j < i ==> seq_view(#[trigger] self.arr_cache@[j]@) != seq_view(
                    owned@,
                ),
            decreases self.arr_cache@.len() - i,
        {
            if values_eq(&owned, &self.arr_cache[i]) {
                return ValueObj::Array(rc_clone(&self.arr_cache[i]));
            }
            i += 1;
        }
        let rc = Rc::new(owned);
        self.arr_cache.push(rc_clone(&rc));
        ValueObj::Array(rc)
    }

    /// Interns a sequence of pairs: the canonical shared instance for this
    /// content within the session.
    #[verifier::loop_isolation(false)]
    pub fn get_cached_dict(&mut self, dict: &[(ValueObj, ValueObj)]) -> (r: ValueObj)
        requires
            old(self).wf(),
        ensures
            final(self).wf(),
            final(self).extends(old(self)),
            r@ == ValueModel::Dict(pair_seq_view(dict@)),
    {
        let owned = clone_pairs(dict);
        let mut i: usize = 0;
        while i < self.dict_cache.len()
            invariant
                i <= self.dict_cache@.len(),
                self == old(self),
                pair_seq_view(owned@) == pair_seq_view(dict@),
                forall|j: int|
                    0 <= j < i ==> pair_seq_view(#[trigger] self.dict_cache@[j]@) != pair_seq_view(
                        owned@,
                    ),
            decreases self.dict_cache@.len() - i,
        {
            if pairs_eq(&owned, &self.dict_cache[i]) {
                return ValueObj::Dict(rc_clone(&self.dict_cache[i]));
            }
            i += 1;
        }
        let rc = Rc::new(owned);
        self.dict_cache.push(rc_clone(&rc));
        ValueObj::Dict(rc)
    }

    /// Interns a sequence of values, as `get_cached_arr` does.
    pub fn array_into_const(&mut self, arr: &[ValueObj]) -> (r: ValueObj)
        requires
            old(self).wf(),
        ensures
            final(self).wf(),
            final(self).extends(old(self)),
            r@ == ValueModel::Arr(seq_view(arr@)),
    {
        self.get_cached_arr(arr)
    }

    /// Widens a byte vector into a fixed-size array, zero-filling whatever
    /// the vector does not cover.
    #[verifier::loop_isolation(false)]
    pub fn vec_to_bytes<const LEN: usize>(vector: Vec<u8>) -> (r: [u8; LEN])
        ensures
            forall|i: int|
                0 <= i < LEN ==> r@[i] == (if i < vector@.len() {
                    vector@[i]
                } else {
                    0u8
                }),
    {
        let mut arr: [u8; LEN] = vstd::array::array_fill_for_copy_types(0u8);
        proof {
            vstd::array::axiom_spec_array_fill_for_copy_type::<u8, LEN>(0u8);
        }
        let n: usize = if vector.len() < LEN {
            vector.len()
        } else {
            LEN
        };
        let mut i: usize = 0;
        while i < n
            invariant
                i <= n,
                forall|j: int| 0 <= j < i ==> arr@[j] == vector@[j],
                forall|j: int| i <= j < LEN ==> arr@[j] == 0u8,
            decreases n - i,
        {
            arr[i] = vector[i];
            i += 1;
        }
        arr
    }

    /// Removes the first `LEN` bytes of the buffer and returns them as a
    /// fixed-size array.  Fewer than `LEN` remaining bytes is a contract
    /// violation of the caller, not a recoverable decode error.
    pub fn consume<const LEN: usize>(v: &mut Vec<u8>) -> (r: [u8; LEN])
        requires
            old(v)@.len() >= LEN,
        ensures
            r@ == old(v)@.take(LEN as int),
            final(v)@ == old(v)@.skip(LEN as int),
    {
        let head = drain_front(v, LEN);
        let r = Self::vec_to_bytes::<LEN>(head);
        proof {
            assert(r@ =~= old(v)@.take(LEN as int));
        }
        r
    }

    /// Removes 4 bytes from the front of the buffer and reads them as an
    /// unsigned little-endian 32-bit integer.
    pub fn deserialize_u32(v: &mut Vec<u8>) -> (r: u32)
        requires
            old(v)@.len() >= 4,
        ensures
            r == vstd::bytes::spec_u32_from_le_bytes(old(v)@.take(4)),
            final(v)@ == old(v)@.skip(4),
    {
        let arr = Self::consume::<4>(v);
        vstd::bytes::u32_from_le_bytes(arr.as_slice())
    }

    /// Reads a length-prefixed raw byte payload: the long-string tag, a
    /// 4-byte length, then that many bytes, without interpreting them.
    pub fn deserialize_bytes(&self, v: &mut Vec<u8>) -> (r: DeserializeResult<Vec<u8>>)
        requires
            !(spec_decode_bytes(old(v)@) is Short),
        ensures
            match spec_decode_bytes(old(v)@) {
                Parsed::Done { val, rest } => r matches Ok(b) && b@ == val && final(v)@ == rest,
                Parsed::Fail { err } => r matches Err(e) && e@ == err && final(v)@ == old(
                    v,
                )@.skip(1),
                Parsed::Short => false,
            },
    {
        let b = take_byte(v);
        if DataTypePrefix::from_byte(b) != DataTypePrefix::Str {
            return Err(DeserializeError::bytes_error());
        }
        let len = Self::deserialize_u32(v);
        let bytes = drain_front(v, len as usize);
        Ok(bytes)
    }

    /// Decodes `k` consecutive values from the front of the buffer, in
    /// stream order.
    #[verifier::loop_isolation(false)]
    fn decode_elements(&mut self, v: &mut Vec<u8>, python_ver: u32, k: usize) -> (r:
        DeserializeResult<Vec<ValueObj>>)
        requires
            old(self).wf(),
            !(spec_decode_many(old(v)@, python_ver, k as int) is Short),
        ensures
            final(self).wf(),
            final(self).extends(old(self)),
            (match spec_decode_many(old(v)@, python_ver, k as int) {
                Parsed::Done { val, rest } => r matches Ok(vec) && seq_view(vec@) == val
                    && final(v)@ == rest,
                Parsed::Fail { err } => r matches Err(e) && e@ == err,
                Parsed::Short => false,
            }),
        decreases old(v)@.len(), 1int,
    {
        let ghost s0 = old(v)@;
        let ghost m = spec_decode_many(s0, python_ver, k as int);
        let mut arr: Vec<ValueObj> = Vec::new();
        proof {
            match m {
                Parsed::Done { val, rest } => {
                    assert(Seq::<ValueModel>::empty() + val =~= val);
                },
                _ => {},
            }
        }
        let mut i: usize = 0;
        while i < k
            invariant
                self.wf(),
                self.extends(old(self)),
                i <= k,
                v@.len() <= s0.len(),
                !(m is Short),
                m == spec_many_with_prefix(
                    seq_view(arr@),
                    spec_decode_many(v@, python_ver, (k - i) as int),
                ),
            decreases k - i,
        {
            let ghost vpre = v@;
            let ghost sub = spec_decode_many(vpre, python_ver, (k - i) as int);
            proof {
                assert(!(sub is Short));
            }
            match self.deserialize_const(v, python_ver) {
                Ok(x) => {
                    let ghost old_arr = arr@;
                    arr.push(x);
                    proof {
                        assert(arr@.drop_last() =~= old_arr);
                        assert(seq_view(arr@) == seq_view(old_arr).push(x@));
                        match spec_decode_many(v@, python_ver, (k - i - 1) as int) {
                            Parsed::Done { val, rest } => {
                                assert(sub == (Parsed::Done { val: seq![x@] + val, rest }));
                                assert(seq_view(old_arr) + (seq![x@] + val) =~= seq_view(
                                    old_arr,
                                ).push(x@) + val);
                            },
                            _ => {},
                        }
                    }
                },
                Err(e) => {
                    return Err(e);
                },
            }
            i += 1;
        }
        proof {
            match m {
                Parsed::Done { val, rest } => {
                    assert(seq_view(arr@) + Seq::<ValueModel>::empty() =~= seq_view(arr@));
                },
                _ => {},
            }
        }
        Ok(arr)
    }

    /// Decodes one value from the front of the buffer, dispatching on its
    /// leading tag byte, which is always consumed first.  Repeated text and
    /// sequences are interned through the session caches.
    pub fn deserialize_const(&mut self, v: &mut Vec<u8>, python_ver: u32) -> (r:
        DeserializeResult<ValueObj>)
        requires
            old(self).wf(),
            !(spec_decode(old(v)@, python_ver) is Short),
        ensures
            final(self).wf(),
            final(self).extends(old(self)),
            (match spec_decode(old(v)@, python_ver) {
                Parsed::Done { val, rest } => r matches Ok(x) && x@ == val && final(v)@ == rest,
                Parsed::Fail { err } => r matches Err(e) && e@ == err,
                Parsed::Short => false,
            }),
            old(v)@.len() > 0 && spec_tag(old(v)@[0]) == DataTypePrefix::Illegal ==> final(v)@
                == old(v)@.skip(1),
        decreases old(v)@.len(), 0int,
    {
        let ghost s = old(v)@;
        let b = take_byte(v);
        match DataTypePrefix::from_byte(b) {
            DataTypePrefix::Int32 => {
                let bytes = Self::consume::<4>(v);
                let u = vstd::bytes::u32_from_le_bytes(bytes.as_slice());
                let n: i32 = if u >= 0x8000_0000u32 {
                    ((u as i64) - 0x1_0000_0000i64) as i32
                } else {
                    u as i32
                };
                Ok(ValueObj::Int(n))
            },
            DataTypePrefix::BinFloat => {
                let bytes = Self::consume::<8>(v);
                let bits = vstd::bytes::u64_from_le_bytes(bytes.as_slice());
                Ok(ValueObj::Float(bits))
            },
            DataTypePrefix::ShortAscii | DataTypePrefix::ShortAsciiInterned => {
                let len_b = take_byte(v);
                let bytes = drain_front(v, len_b as usize);
                match bytes_to_string(bytes) {
                    Some(text) => Ok(self.get_cached_str(text.as_str())),
                    None => Err(DeserializeError::utf8_error()),
                }
            },
            DataTypePrefix::Str | DataTypePrefix::Unicode => {
                let len = Self::deserialize_u32(v);
                let bytes = drain_front(v, len as usize);
                match bytes_to_string(bytes) {
                    Some(text) => Ok(self.get_cached_str(text.as_str())),
                    None => Err(DeserializeError::utf8_error()),
                }
            },
            DataTypePrefix::True => Ok(ValueObj::True),
            DataTypePrefix::False => Ok(ValueObj::False),
            DataTypePrefix::SmallTuple => {
                let k = take_byte(v);
                match self.decode_elements(v, python_ver, k as usize) {
                    Ok(elems) => Ok(self.get_cached_arr(elems.as_slice())),
                    Err(e) => Err(e),
                }
            },
            DataTypePrefix::Tuple => {
                let k = Self::deserialize_u32(v);
                match self.decode_elements(v, python_ver, k as usize) {
                    Ok(elems) => Ok(self.get_cached_arr(elems.as_slice())),
                    Err(e) => Err(e),
                }
            },
            DataTypePrefix::Code => {
                let ghost t = v@;
                proof {
                    assert(!(crate::model::spec_decode_code(t, python_ver) is Short));
                    assert(t.len() >= (if python_ver >= POSONLY_MIN_VERSION {
                        24int
                    } else {
                        20int
                    }));
                }
                let argcount = Self::deserialize_u32(v);
                let posonlyargcount = if python_ver >= POSONLY_MIN_VERSION {
                    Self::deserialize_u32(v)
                } else {
                    0
                };
                let kwonlyargcount = Self::deserialize_u32(v);
                let nlocals = Self::deserialize_u32(v);
                let stacksize = Self::deserialize_u32(v);
                let flags = Self::deserialize_u32(v);
                let ghost s1v = v@;
                proof {
                    assert(!(spec_decode_bytes(s1v) is Short));
                }
                let code = match self.deserialize_bytes(v) {
                    Ok(c) => c,
                    Err(e) => return Err(e),
                };
                let ghost s2v = v@;
                proof {
                    assert(s2v.len() < s1v.len());
                    assert(!(spec_decode_arr(s2v, python_ver) is Short));
                }
                let consts = match self.deserialize_const_vec(v, python_ver) {
                    Ok(c) => c,
                    Err(e) => return Err(e),
                };
                let ghost s3v = v@;
                proof {
                    assert(s3v.len() < s2v.len());
                    assert(s3v.len() < t.len());
                    assert(!(spec_decode_str_vec(s3v, python_ver) is Short));
                }
                let names = match self.deserialize_str_vec(v, python_ver) {
                    Ok(c) => c,
                    Err(e) => return Err(e),
                };
                let ghost s4v = v@;
                proof {
                    assert(s4v.len() < s3v.len());
                    assert(!(spec_decode_str_vec(s4v, python_ver) is Short));
                }
                let varnames = match self.deserialize_str_vec(v, python_ver) {
                    Ok(c) => c,
                    Err(e) => return Err(e),
                };
                let freevars = match self.deserialize_str_vec(v, python_ver) {
                    Ok(c) => c,
                    Err(e) => return Err(e),
                };
                let cellvars = match self.deserialize_str_vec(v, python_ver) {
                    Ok(c) => c,
                    Err(e) => return Err(e),
                };
                let filename = match self.deserialize_str(v, python_ver) {
                    Ok(c) => c,
                    Err(e) => return Err(e),
                };
                let name = match self.deserialize_str(v, python_ver) {
                    Ok(c) => c,
                    Err(e) => return Err(e),
                };
                let firstlineno = Self::deserialize_u32(v);
                let lnotab = match self.deserialize_bytes(v) {
                    Ok(c) => c,
                    Err(e) => return Err(e),
                };
                Ok(
                    ValueObj::Code(
                        Rc::new(
                            CodeObj {
                                argcount,
                                posonlyargcount,
                                kwonlyargcount,
                                nlocals,
                                stacksize,
                                flags,
                                code,
                                consts,
                                names,
                                varnames,
                                freevars,
                                cellvars,
                                filename,
                                name,
                                firstlineno,
                                lnotab,
                            },
                        ),
                    ),
                )
            },
            DataTypePrefix::Nil => Ok(ValueObj::Nil),
            DataTypePrefix::Illegal => Err(DeserializeError::unknown_tag_error(b)),
        }
    }

    /// Decodes one value and requires it to be a sequence, handing its
    /// elements back as a fresh vector that shares their backing storage.
    pub fn deserialize_const_vec(&mut self, v: &mut Vec<u8>, python_ver: u32) -> (r:
        DeserializeResult<Vec<ValueObj>>)
        requires
            old(self).wf(),
            !(spec_decode_arr(old(v)@, python_ver) is Short),
        ensures
            final(self).wf(),
            final(self).extends(old(self)),
            (match spec_decode_arr(old(v)@, python_ver) {
                Parsed::Done { val, rest } => r matches Ok(vec) && seq_view(vec@) == val
                    && final(v)@ == rest,
                Parsed::Fail { err } => r matches Err(e) && e@ == err,
                Parsed::Short => false,
            }),
        decreases old(v)@.len(), 1int,
    {
        match self.deserialize_const(v, python_ver) {
            Ok(val) => match val {
                ValueObj::Array(a) => Ok(clone_values(a.as_slice())),
                other => Err(DeserializeError::type_error(Kind::Array, other.kind())),
            },
            Err(e) => Err(e),
        }
    }

    /// Decodes one value and requires it to be a sequence, handing back the
    /// shared backing storage itself.
    pub fn deserialize_const_array(&mut self, v: &mut Vec<u8>, python_ver: u32) -> (r:
        DeserializeResult<Rc<Vec<ValueObj>>>)
        requires
            old(self).wf(),
            !(spec_decode_arr(old(v)@, python_ver) is Short),
        ensures
            final(self).wf(),
            final(self).extends(old(self)),
            (match spec_decode_arr(old(v)@, python_ver) {
                Parsed::Done { val, rest } => r matches Ok(a) && seq_view(a@) == val && final(v)@
                    == rest,
                Parsed::Fail { err } => r matches Err(e) && e@ == err,
                Parsed::Short => false,
            }),
        decreases old(v)@.len(), 1int,
    {
        match self.deserialize_const(v, python_ver) {
            Ok(val) => match val {
                ValueObj::Array(a) => Ok(a),
                other => Err(DeserializeError::type_error(Kind::Array, other.kind())),
            },
            Err(e) => Err(e),
        }
    }

    /// Requires a decoded value to be text, handing back its interned
    /// handle.  The session itself is left as it was.
    pub fn try_into_str(&mut self, c: ValueObj) -> (r: DeserializeResult<Rc<String>>)
        ensures
            *final(self) == *old(self),
            (match c@ {
                ValueModel::Str(t) => r matches Ok(x) && x@ == t,
                _ => r matches Err(e) && e@ == crate::error::spec_type_error(
                    Kind::Str,
                    crate::value::spec_kind_of(c@),
                ),
            }),
    {
        match c {
            ValueObj::Str(s) => Ok(s),
            other => Err(DeserializeError::type_error(Kind::Str, other.kind())),
        }
    }

    /// Decodes one value and requires it to be text.
    pub fn deserialize_str(&mut self, v: &mut Vec<u8>, python_ver: u32) -> (r: DeserializeResult<
        Rc<String>,
    >)
        requires
            old(self).wf(),
            !(spec_decode_str(old(v)@, python_ver) is Short),
        ensures
            final(self).wf(),
            final(self).extends(old(self)),
            (match spec_decode_str(old(v)@, python_ver) {
                Parsed::Done { val, rest } => r matches Ok(x) && x@ == val && final(v)@ == rest,
                Parsed::Fail { err } => r matches Err(e) && e@ == err,
                Parsed::Short => false,
            }),
        decreases old(v)@.len(), 1int,
    {
        match self.deserialize_const(v, python_ver) {
            Ok(val) => match val {
                ValueObj::Str(s) => Ok(s),
                other => Err(DeserializeError::type_error(Kind::Str, other.kind())),
            },
            Err(e) => Err(e),
        }
    }

    /// Decodes one value and requires it to be a sequence of text values,
    /// failing on the first element, in stream order, that is not text.
    #[verifier::loop_isolation(false)]
    pub fn deserialize_str_vec(&mut self, v: &mut Vec<u8>, python_ver: u32) -> (r:
        DeserializeResult<Vec<Rc<String>>>)
        requires
            old(self).wf(),
            !(spec_decode_str_vec(old(v)@, python_ver) is Short),
        ensures
            final(self).wf(),
            final(self).extends(old(self)),
            (match spec_decode_str_vec(old(v)@, python_ver) {
                Parsed::Done { val, rest } => r matches Ok(strs) && str_seq_view(strs@) == val
                    && final(v)@ == rest,
                Parsed::Fail { err } => r matches Err(e) && e@ == err,
                Parsed::Short => false,
            }),
        decreases old(v)@.len(), 1int,
    {
        match self.deserialize_const(v, python_ver) {
            Ok(val) => match val {
                ValueObj::Array(a) => {
                    let ghost vs = seq_view(a@);
                    proof {
                        crate::value::lemma_seq_view(a@);
                    }
                    let mut strs: Vec<Rc<String>> = Vec::new();
                    let mut i: usize = 0;
                    while i < a.len()
                        invariant
                            i <= a@.len(),
                            vs == seq_view(a@),
                            vs.len() == a@.len(),
                            forall|j: int| 0 <= j < a@.len() ==> vs[j] == #[trigger] a@[j]@,
                            forall|j: int| 0 <= j < i ==> #[trigger] vs[j] is Str,
                            strs@.len() == i,
                            forall|j: int|
                                0 <= j < i ==> (#[trigger] strs@[j]@) == vs[j]->Str_0,
                        decreases a@.len() - i,
                    {
                        let elem = &a[i];
                        proof {
                            assert(*elem == a@[i as int]);
                            assert(vs[i as int] == a@[i as int]@);
                        }
                        match elem {
                            ValueObj::Str(s) => {
                                proof {
                                    assert(vs[i as int] is Str);
                                }
                                strs.push(rc_clone(s));
                            },
                            other => {
                                proof {
                                    assert(!(vs[i as int] is Str));
                                    crate::model::lemma_strs_of_err(vs, i as int);
                                }
                                return Err(
                                    DeserializeError::type_error(Kind::Str, other.kind()),
                                );
                            },
                        }
                        i += 1;
                    }
                    proof {
                        crate::model::lemma_strs_of_ok(vs);
                        assert(str_seq_view(strs@) =~= crate::model::spec_strs_of(vs)->Ok_0);
                    }
                    Ok(strs)
                },
                other => Err(DeserializeError::type_error(Kind::StrArray, other.kind())),
            },
            Err(e) => Err(e),
        }
    }
}

} // verus!
