//! Scenario tests for the decoder: scalar round trips, interning, tuples,
//! code units, version gating, and each error variant.

use std::rc::Rc;

use marshal::Deserializer;
use marshal::ValueObj;

const VER_LOW: u32 = 3400;
const VER_HIGH: u32 = 3413;

fn le32(n: u32) -> [u8; 4] {
    n.to_le_bytes()
}

fn int_payload(n: i32) -> Vec<u8> {
    let mut v = vec![0x69u8];
    v.extend_from_slice(&n.to_le_bytes());
    v
}

fn short_ascii_payload(s: &str) -> Vec<u8> {
    let mut v = vec![0x7Au8, s.len() as u8];
    v.extend_from_slice(s.as_bytes());
    v
}

fn bytes_payload(b: &[u8]) -> Vec<u8> {
    let mut v = vec![0x73u8];
    v.extend_from_slice(&le32(b.len() as u32));
    v.extend_from_slice(b);
    v
}

#[test]
fn int_round_trip() {
    for n in [0i32, 1, -2, 42, i32::MAX, i32::MIN, -123456789] {
        let mut d = Deserializer::new();
        let mut v = int_payload(n);
        let r = d.deserialize_const(&mut v, VER_LOW).unwrap();
        match r {
            ValueObj::Int(m) => assert_eq!(m, n),
            other => panic!("expected an integer, got {:?}", other),
        }
        assert!(v.is_empty());
    }
}

#[test]
fn float_round_trip() {
    for x in [0.0f64, 1.5, -3.25, 6.02e23, f64::MIN_POSITIVE] {
        let mut d = Deserializer::new();
        let mut v = vec![0x67u8];
        v.extend_from_slice(&x.to_le_bytes());
        let r = d.deserialize_const(&mut v, VER_LOW).unwrap();
        match r {
            ValueObj::Float(bits) => assert_eq!(f64::from_bits(bits), x),
            other => panic!("expected a float, got {:?}", other),
        }
        assert!(v.is_empty());
    }
}

#[test]
fn short_text_decodes() {
    let mut d = Deserializer::new();
    let mut v = short_ascii_payload("hello");
    let r = d.deserialize_const(&mut v, VER_LOW).unwrap();
    match r {
        ValueObj::Str(s) => assert_eq!(&**s, "hello"),
        other => panic!("expected text, got {:?}", other),
    }
    assert!(v.is_empty());
}

#[test]
fn text_decode_determinism() {
    // The same short-text payload twice in one session: the two handles must
    // share one allocation, not merely hold equal text.
    let mut d = Deserializer::new();
    let mut v = short_ascii_payload("spam");
    v.extend(short_ascii_payload("spam"));
    let first = d.deserialize_const(&mut v, VER_LOW).unwrap();
    let second = d.deserialize_const(&mut v, VER_LOW).unwrap();
    let a = match first {
        ValueObj::Str(s) => s,
        other => panic!("expected text, got {:?}", other),
    };
    let b = match second {
        ValueObj::Str(s) => s,
        other => panic!("expected text, got {:?}", other),
    };
    assert_eq!(&**a, "spam");
    assert!(Rc::ptr_eq(&a, &b));
}

#[test]
fn interned_tuples_share_storage() {
    // Two structurally equal tuples within one session intern to one
    // backing allocation.
    let mut d = Deserializer::new();
    let mut v = vec![0x29u8, 1];
    v.extend(int_payload(7));
    v.extend(vec![0x29u8, 1]);
    v.extend(int_payload(7));
    let first = d.deserialize_const(&mut v, VER_LOW).unwrap();
    let second = d.deserialize_const(&mut v, VER_LOW).unwrap();
    let a = match first {
        ValueObj::Array(a) => a,
        other => panic!("expected a tuple, got {:?}", other),
    };
    let b = match second {
        ValueObj::Array(a) => a,
        other => panic!("expected a tuple, got {:?}", other),
    };
    assert!(Rc::ptr_eq(&a, &b));
}

#[test]
fn empty_tuple() {
    let mut d = Deserializer::new();
    let mut v = vec![0x29u8, 0, 0xAB, 0xCD];
    let r = d.deserialize_const(&mut v, VER_LOW).unwrap();
    match r {
        ValueObj::Array(a) => assert!(a.is_empty()),
        other => panic!("expected a tuple, got {:?}", other),
    }
    // no byte beyond the tag and the length byte is consumed
    assert_eq!(v, vec![0xAB, 0xCD]);
}

#[test]
fn nested_tuple() {
    let mut v = vec![0x29u8, 2];
    v.extend(int_payload(1));
    v.extend(int_payload(2));
    assert_eq!(v.len(), 12);
    v.extend_from_slice(&[0xEE, 0xFF]);
    let mut d = Deserializer::new();
    let r = d.deserialize_const(&mut v, VER_LOW).unwrap();
    match r {
        ValueObj::Array(a) => {
            assert_eq!(a.len(), 2);
            assert!(matches!(a[0], ValueObj::Int(1)));
            assert!(matches!(a[1], ValueObj::Int(2)));
        },
        other => panic!("expected a tuple, got {:?}", other),
    }
    // exactly 1 + 1 + (1 + 4) + (1 + 4) = 12 bytes are consumed
    assert_eq!(v, vec![0xEE, 0xFF]);
}

#[test]
fn long_tuple() {
    let mut v = vec![0x28u8];
    v.extend_from_slice(&le32(3));
    v.extend(int_payload(10));
    v.extend(int_payload(20));
    v.extend(int_payload(30));
    let mut d = Deserializer::new();
    let r = d.deserialize_const(&mut v, VER_LOW).unwrap();
    match r {
        ValueObj::Array(a) => {
            assert_eq!(a.len(), 3);
            assert!(matches!(a[2], ValueObj::Int(30)));
        },
        other => panic!("expected a tuple, got {:?}", other),
    }
    assert!(v.is_empty());
}

#[test]
fn booleans_and_absence() {
    let mut d = Deserializer::new();
    let mut v = vec![0x54u8, 0x46, 0x4E];
    assert!(matches!(d.deserialize_const(&mut v, VER_LOW).unwrap(), ValueObj::True));
    assert!(matches!(d.deserialize_const(&mut v, VER_LOW).unwrap(), ValueObj::False));
    assert!(matches!(d.deserialize_const(&mut v, VER_LOW).unwrap(), ValueObj::Nil));
    assert!(v.is_empty());
}

#[test]
fn long_text_decodes() {
    let mut d = Deserializer::new();
    let mut v = vec![0x75u8];
    v.extend_from_slice(&le32(2));
    v.extend_from_slice(b"hi");
    let r = d.deserialize_const(&mut v, VER_LOW).unwrap();
    match r {
        ValueObj::Str(s) => assert_eq!(&**s, "hi"),
        other => panic!("expected text, got {:?}", other),
    }
}

fn code_payload(with_posonly: bool) -> Vec<u8> {
    let mut v = vec![0x63u8];
    v.extend_from_slice(&le32(2)); // argcount
    if with_posonly {
        v.extend_from_slice(&le32(9)); // posonlyargcount
    }
    v.extend_from_slice(&le32(3)); // kwonlyargcount
    v.extend_from_slice(&le32(4)); // nlocals
    v.extend_from_slice(&le32(5)); // stacksize
    v.extend_from_slice(&le32(6)); // flags
    v.extend(bytes_payload(&[0x64, 0x00])); // code
    let mut consts = vec![0x29u8, 1];
    consts.extend(int_payload(11));
    v.extend(consts); // consts
    v.extend(vec![0x29u8, 1]);
    v.extend(short_ascii_payload("x")); // names
    v.extend(vec![0x29u8, 0]); // varnames
    v.extend(vec![0x29u8, 0]); // freevars
    v.extend(vec![0x29u8, 0]); // cellvars
    v.extend(short_ascii_payload("f.py")); // filename
    v.extend(short_ascii_payload("m")); // name
    v.extend_from_slice(&le32(7)); // firstlineno
    v.extend(bytes_payload(&[1, 2, 3])); // lnotab
    v
}

#[test]
fn version_gating_low() {
    // a payload built without a posonlyargcount field, decoded below the
    // threshold: fields keep their old order and posonlyargcount is 0
    let mut d = Deserializer::new();
    let mut v = code_payload(false);
    let r = d.deserialize_const(&mut v, VER_LOW).unwrap();
    let c = match r {
        ValueObj::Code(c) => c,
        other => panic!("expected a code unit, got {:?}", other),
    };
    assert_eq!(c.argcount, 2);
    assert_eq!(c.posonlyargcount, 0);
    assert_eq!(c.kwonlyargcount, 3);
    assert_eq!(c.nlocals, 4);
    assert_eq!(c.stacksize, 5);
    assert_eq!(c.flags, 6);
    assert_eq!(c.code, vec![0x64, 0x00]);
    assert_eq!(c.consts.len(), 1);
    assert!(matches!(c.consts[0], ValueObj::Int(11)));
    assert_eq!(c.names.len(), 1);
    assert_eq!(c.names[0].as_str(), "x");
    assert!(c.varnames.is_empty());
    assert!(c.freevars.is_empty());
    assert!(c.cellvars.is_empty());
    assert_eq!(&**c.filename, "f.py");
    assert_eq!(&**c.name, "m");
    assert_eq!(c.firstlineno, 7);
    assert_eq!(c.lnotab, vec![1, 2, 3]);
    assert!(v.is_empty());
}

#[test]
fn version_gating_high() {
    // the same layout with an explicit posonlyargcount field, decoded at
    // the threshold: the extra 4-byte field is consumed
    let mut d = Deserializer::new();
    let mut v = code_payload(true);
    let r = d.deserialize_const(&mut v, VER_HIGH).unwrap();
    let c = match r {
        ValueObj::Code(c) => c,
        other => panic!("expected a code unit, got {:?}", other),
    };
    assert_eq!(c.argcount, 2);
    assert_eq!(c.posonlyargcount, 9);
    assert_eq!(c.kwonlyargcount, 3);
    assert_eq!(c.firstlineno, 7);
    assert!(v.is_empty());
}

#[test]
fn type_mismatch_on_text() {
    // requesting text where the stream holds an integer
    let mut d = Deserializer::new();
    let mut v = int_payload(5);
    let e = d.deserialize_str(&mut v, VER_LOW).unwrap_err();
    assert_eq!(e.errno, 0);
    assert_eq!(&*e.caused_by, "Deserializer::type_error");
    assert_eq!(&*e.desc, "expect a Str object, but the deserialized object is Int");
}

#[test]
fn unknown_tag_fails() {
    let mut d = Deserializer::new();
    let mut v = vec![0x21u8, 1, 2, 3];
    let e = d.deserialize_const(&mut v, VER_LOW).unwrap_err();
    assert_eq!(e.errno, 0);
    assert_eq!(&*e.caused_by, "Deserializer::deserialize_const");
    assert_eq!(&*e.desc, format!("cannot deserialize this object: {}", 0x21u8 as char));
    // exactly the tag byte is consumed before failing
    assert_eq!(v, vec![1, 2, 3]);
}

#[test]
fn malformed_text_fails() {
    let mut d = Deserializer::new();
    let mut v = vec![0x7Au8, 2, 0xFF, 0xFE];
    let e = d.deserialize_const(&mut v, VER_LOW).unwrap_err();
    assert_eq!(e.errno, 0);
    assert_eq!(&*e.caused_by, "Str::try_from");
    assert_eq!(&*e.desc, "invalid utf-8 sequence");
}

#[test]
fn raw_bytes_read() {
    let d = Deserializer::new();
    let mut v = bytes_payload(&[9, 8, 7]);
    v.push(0x55);
    let b = d.deserialize_bytes(&mut v).unwrap();
    assert_eq!(b, vec![9, 8, 7]);
    assert_eq!(v, vec![0x55]);
}

#[test]
fn raw_bytes_wrong_tag() {
    let d = Deserializer::new();
    let mut v = vec![0x75u8, 0, 0, 0, 0];
    let e = d.deserialize_bytes(&mut v).unwrap_err();
    assert_eq!(e.errno, 0);
    assert_eq!(&*e.caused_by, "Deserializer::deserialize_bytes");
    assert_eq!(&*e.desc, "failed to load bytes");
    // exactly the tag byte is consumed before the early return
    assert_eq!(v, vec![0, 0, 0, 0]);
}

#[test]
fn const_array_rejects_scalar() {
    let mut d = Deserializer::new();
    let mut v = int_payload(2);
    let e = d.deserialize_const_array(&mut v, VER_LOW).unwrap_err();
    assert_eq!(&*e.desc, "expect a Array object, but the deserialized object is Int");
}

#[test]
fn str_vec_decodes() {
    let mut d = Deserializer::new();
    let mut v = vec![0x29u8, 2];
    v.extend(short_ascii_payload("ab"));
    v.extend(short_ascii_payload("cd"));
    let strs = d.deserialize_str_vec(&mut v, VER_LOW).unwrap();
    assert_eq!(strs.len(), 2);
    assert_eq!(strs[0].as_str(), "ab");
    assert_eq!(strs[1].as_str(), "cd");
}

#[test]
fn str_vec_rejects_non_text_element() {
    let mut d = Deserializer::new();
    let mut v = vec![0x29u8, 2];
    v.extend(short_ascii_payload("ok"));
    v.extend(int_payload(1));
    let e = d.deserialize_str_vec(&mut v, VER_LOW).unwrap_err();
    assert_eq!(&*e.desc, "expect a Str object, but the deserialized object is Int");
}

#[test]
fn str_vec_rejects_non_sequence() {
    let mut d = Deserializer::new();
    let mut v = int_payload(1);
    let e = d.deserialize_str_vec(&mut v, VER_LOW).unwrap_err();
    assert_eq!(&*e.desc, "expect a [Str; _] object, but the deserialized object is Int");
}

#[test]
fn const_vec_decodes() {
    let mut d = Deserializer::new();
    let mut v = vec![0x29u8, 2];
    v.extend(int_payload(1));
    v.extend(vec![0x54u8]);
    let vals = d.deserialize_const_vec(&mut v, VER_LOW).unwrap();
    assert_eq!(vals.len(), 2);
    assert!(matches!(vals[0], ValueObj::Int(1)));
    assert!(matches!(vals[1], ValueObj::True));
}

#[test]
fn const_vec_rejects_scalar() {
    let mut d = Deserializer::new();
    let mut v = vec![0x54u8];
    let e = d.deserialize_const_vec(&mut v, VER_LOW).unwrap_err();
    assert_eq!(&*e.desc, "expect a Array object, but the deserialized object is Bool");
}

#[test]
fn const_array_shares_storage() {
    let mut d = Deserializer::new();
    let mut v = vec![0x29u8, 1];
    v.extend(int_payload(4));
    let arr = d.deserialize_const_array(&mut v, VER_LOW).unwrap();
    assert_eq!(arr.len(), 1);
    // interning the same content again hands back the same allocation
    let again = d.array_into_const(arr.as_slice());
    match again {
        ValueObj::Array(b) => assert!(Rc::ptr_eq(&arr, &b)),
        other => panic!("expected a tuple, got {:?}", other),
    }
}

#[test]
fn try_into_str_accepts_text() {
    let mut d = Deserializer::new();
    let val = ValueObj::Str(Rc::new(String::from("abc")));
    let s = d.try_into_str(val).unwrap();
    assert_eq!(s.as_str(), "abc");
}

#[test]
fn try_into_str_rejects_integer() {
    let mut d = Deserializer::new();
    let e = d.try_into_str(ValueObj::Int(3)).unwrap_err();
    assert_eq!(&*e.desc, "expect a Str object, but the deserialized object is Int");
}

#[test]
fn dict_interning() {
    let mut d = Deserializer::new();
    let pair = (ValueObj::Int(1), ValueObj::True);
    let first = d.get_cached_dict(&[(pair.0, pair.1)]);
    let second = d.get_cached_dict(&[(ValueObj::Int(1), ValueObj::True)]);
    let a = match first {
        ValueObj::Dict(x) => x,
        other => panic!("expected a pair sequence, got {:?}", other),
    };
    let b = match second {
        ValueObj::Dict(x) => x,
        other => panic!("expected a pair sequence, got {:?}", other),
    };
    assert!(Rc::ptr_eq(&a, &b));
}

#[test]
fn consume_and_u32() {
    let mut v = vec![1u8, 0, 0, 0, 0xAA];
    let n = Deserializer::deserialize_u32(&mut v);
    assert_eq!(n, 1);
    assert_eq!(v, vec![0xAA]);
    let mut w = vec![9u8, 8, 7];
    let head = Deserializer::consume::<2>(&mut w);
    assert_eq!(head, [9, 8]);
    assert_eq!(w, vec![7]);
}

#[test]
fn vec_to_bytes_pads_with_zeroes() {
    let arr = Deserializer::vec_to_bytes::<4>(vec![5, 6]);
    assert_eq!(arr, [5, 6, 0, 0]);
    let full = Deserializer::vec_to_bytes::<2>(vec![1, 2, 3]);
    assert_eq!(full, [1, 2]);
}

#[test]
fn error_constructors() {
    let e = marshal::DeserializeError::new(4, "origin", "something");
    assert_eq!(e.errno, 4);
    assert_eq!(&*e.caused_by, "origin");
    assert_eq!(&*e.desc, "something");
    let broken = marshal::DeserializeError::file_broken_error();
    assert_eq!(broken.errno, 0);
    assert_eq!(&*broken.desc, "the loaded .pyc file is broken");
    let t = marshal::DeserializeError::type_error(marshal::Kind::Str, marshal::Kind::Code);
    assert_eq!(&*t.desc, "expect a Str object, but the deserialized object is Code");
}

#[test]
fn code_units_nest_inside_tuples() {
    let mut v = vec![0x29u8, 2];
    v.extend(code_payload(false));
    v.extend(int_payload(-1));
    let mut d = Deserializer::new();
    let r = d.deserialize_const(&mut v, VER_LOW).unwrap();
    match r {
        ValueObj::Array(a) => {
            assert_eq!(a.len(), 2);
            assert!(matches!(a[0], ValueObj::Code(_)));
            assert!(matches!(a[1], ValueObj::Int(-1)));
        },
        other => panic!("expected a tuple, got {:?}", other),
    }
    assert!(v.is_empty());
}
