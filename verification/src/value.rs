//! The decoded value tree: a closed variant type for everything the format
//! can produce, its mathematical model, and structural equality.
//!
//! Composite variants own their elements through a shared, immutable,
//! reference-counted allocation, so that the interning caches can hand out
//! several owners of one backing store without copying.

use std::rc::Rc;
use vstd::prelude::*;

use crate::error::Kind;

verus! {

/// The mathematical content of a decoded value.
///
/// A float is carried as the 64 bits of its IEEE-754 representation, read
/// little-endian from the stream; text is a sequence of characters.
pub enum ValueModel {
    Nil,
    True,
    False,
    Int(i32),
    Float(u64),
    Str(Seq<char>),
    Arr(Seq<ValueModel>),
    Dict(Seq<(ValueModel, ValueModel)>),
    Code(CodeModel),
}

/// The mathematical content of a code unit: one compiled function or module
/// body and its metadata.
pub struct CodeModel {
    pub argcount: u32,
    pub posonlyargcount: u32,
    pub kwonlyargcount: u32,
    pub nlocals: u32,
    pub stacksize: u32,
    pub flags: u32,
    pub code: Seq<u8>,
    pub consts: Seq<ValueModel>,
    pub names: Seq<Seq<char>>,
    pub varnames: Seq<Seq<char>>,
    pub freevars: Seq<Seq<char>>,
    pub cellvars: Seq<Seq<char>>,
    pub filename: Seq<char>,
    pub name: Seq<char>,
    pub firstlineno: u32,
    pub lnotab: Seq<u8>,
}

/// One decoded value.
///
/// The `Float` variant holds the IEEE-754 bit pattern of the 8-byte
/// little-endian double exactly as it stood in the stream; a host that wants
/// the numeric value reinterprets the bits.
#[derive(Debug)]
pub enum ValueObj {
    Nil,
    True,
    False,
    Int(i32),
    Float(u64),
    Str(Rc<String>),
    Array(Rc<Vec<ValueObj>>),
    Dict(Rc<Vec<(ValueObj, ValueObj)>>),
    Code(Rc<CodeObj>),
}

/// One decoded code unit.  Every value nested inside `consts` is itself fully
/// decoded, and the name-list fields hold only text values.
#[derive(Debug)]
pub struct CodeObj {
    pub argcount: u32,
    pub posonlyargcount: u32,
    pub kwonlyargcount: u32,
    pub nlocals: u32,
    pub stacksize: u32,
    pub flags: u32,
    pub code: Vec<u8>,
    pub consts: Vec<ValueObj>,
    pub names: Vec<Rc<String>>,
    pub varnames: Vec<Rc<String>>,
    pub freevars: Vec<Rc<String>>,
    pub cellvars: Vec<Rc<String>>,
    pub filename: Rc<String>,
    pub name: Rc<String>,
    pub firstlineno: u32,
    pub lnotab: Vec<u8>,
}

/// The model of one decoded value.
pub open spec fn value_view(v: ValueObj) -> ValueModel
    decreases v,
{
    match v {
        ValueObj::Nil => ValueModel::Nil,
        ValueObj::True => ValueModel::True,
        ValueObj::False => ValueModel::False,
        ValueObj::Int(n) => ValueModel::Int(n),
        ValueObj::Float(bits) => ValueModel::Float(bits),
        ValueObj::Str(s) => ValueModel::Str(s@),
        ValueObj::Array(a) => ValueModel::Arr(seq_view(a@)),
        ValueObj::Dict(d) => ValueModel::Dict(pair_seq_view(d@)),
        ValueObj::Code(c) => ValueModel::Code(code_view(*c)),
    }
}

/// The model of a sequence of decoded values, element by element.
pub open spec fn seq_view(s: Seq<ValueObj>) -> Seq<ValueModel>
    decreases s,
{
    if s.len() == 0 {
        Seq::empty()
    } else {
        seq_view(s.drop_last()).push(value_view(s.last()))
    }
}

/// The model of a sequence of decoded pairs, element by element.
pub open spec fn pair_seq_view(s: Seq<(ValueObj, ValueObj)>) -> Seq<(ValueModel, ValueModel)>
    decreases s,
{
    if s.len() == 0 {
        Seq::empty()
    } else {
        pair_seq_view(s.drop_last()).push((value_view(s.last().0), value_view(s.last().1)))
    }
}

/// The model of a sequence of interned strings, element by element.
pub open spec fn str_seq_view(s: Seq<Rc<String>>) -> Seq<Seq<char>> {
    Seq::new(s.len(), |i: int| s[i]@)
}

/// The model of one decoded code unit.
pub open spec fn code_view(c: CodeObj) -> CodeModel
    decreases c,
{
    CodeModel {
        argcount: c.argcount,
        posonlyargcount: c.posonlyargcount,
        kwonlyargcount: c.kwonlyargcount,
        nlocals: c.nlocals,
        stacksize: c.stacksize,
        flags: c.flags,
        code: c.code@,
        consts: seq_view(c.consts@),
        names: str_seq_view(c.names@),
        varnames: str_seq_view(c.varnames@),
        freevars: str_seq_view(c.freevars@),
        cellvars: str_seq_view(c.cellvars@),
        filename: c.filename@,
        name: c.name@,
        firstlineno: c.firstlineno,
        lnotab: c.lnotab@,
    }
}

impl View for ValueObj {
    type V = ValueModel;

    open spec fn view(&self) -> ValueModel {
        value_view(*self)
    }
}

impl View for CodeObj {
    type V = CodeModel;

    open spec fn view(&self) -> CodeModel {
        code_view(*self)
    }
}

/// `seq_view` maps lengths and elements one for one.
pub proof fn lemma_seq_view(s: Seq<ValueObj>)
    ensures
        seq_view(s).len() == s.len(),
        forall|i: int| 0 <= i < s.len() ==> seq_view(s)[i] == #[trigger] s[i]@,
    decreases s.len(),
{
    if s.len() > 0 {
        lemma_seq_view(s.drop_last());
        assert forall|i: int| 0 <= i < s.len() implies seq_view(s)[i] == #[trigger] s[i]@ by {
            if i < s.len() - 1 {
                assert(s.drop_last()[i] == s[i]);
            } else {
                assert(s[i] == s.last());
            }
        }
    }
}

/// `pair_seq_view` maps lengths and elements one for one.
pub proof fn lemma_pair_seq_view(s: Seq<(ValueObj, ValueObj)>)
    ensures
        pair_seq_view(s).len() == s.len(),
        forall|i: int|
            0 <= i < s.len() ==> pair_seq_view(s)[i] == (#[trigger] s[i].0@, s[i].1@),
    decreases s.len(),
{
    if s.len() > 0 {
        lemma_pair_seq_view(s.drop_last());
        assert forall|i: int|
            0 <= i < s.len() implies pair_seq_view(s)[i] == (#[trigger] s[i].0@, s[i].1@) by {
            if i < s.len() - 1 {
                assert(s.drop_last()[i] == s[i]);
            } else {
                assert(s[i] == s.last());
            }
        }
    }
}

/// The kind of a decoded value, as a type-mismatch error names it.
pub open spec fn spec_kind_of(v: ValueModel) -> Kind {
    match v {
        ValueModel::Nil => Kind::NoneType,
        ValueModel::True => Kind::Bool,
        ValueModel::False => Kind::Bool,
        ValueModel::Int(_) => Kind::Int,
        ValueModel::Float(_) => Kind::Float,
        ValueModel::Str(_) => Kind::Str,
        ValueModel::Arr(_) => Kind::Array,
        ValueModel::Dict(_) => Kind::Dict,
        ValueModel::Code(_) => Kind::Code,
    }
}

impl ValueObj {
    /// Returns the kind of this value.
    pub fn kind(&self) -> (r: Kind)
        ensures
            r == spec_kind_of(self@),
    {
        match self {
            ValueObj::Nil => Kind::NoneType,
            ValueObj::True => Kind::Bool,
            ValueObj::False => Kind::Bool,
            ValueObj::Int(_) => Kind::Int,
            ValueObj::Float(_) => Kind::Float,
            ValueObj::Str(_) => Kind::Str,
            ValueObj::Array(_) => Kind::Array,
            ValueObj::Dict(_) => Kind::Dict,
            ValueObj::Code(_) => Kind::Code,
        }
    }
}

/// Relies on Rc::clone: returns a new handle to the same allocation, so the
/// shared value is unchanged.
#[verifier::external_body]
pub fn rc_clone<T>(rc: &Rc<T>) -> (r: Rc<T>)
    ensures
        r == *rc,
{
    Rc::clone(rc)
}

impl ValueObj {
    /// Copies a value; composite variants share their backing allocation
    /// with the original instead of copying it.
    pub fn duplicate(&self) -> (r: ValueObj)
        ensures
            r@ == self@,
    {
        match self {
            ValueObj::Nil => ValueObj::Nil,
            ValueObj::True => ValueObj::True,
            ValueObj::False => ValueObj::False,
            ValueObj::Int(n) => ValueObj::Int(*n),
            ValueObj::Float(bits) => ValueObj::Float(*bits),
            ValueObj::Str(s) => ValueObj::Str(rc_clone(s)),
            ValueObj::Array(a) => ValueObj::Array(rc_clone(a)),
            ValueObj::Dict(d) => ValueObj::Dict(rc_clone(d)),
            ValueObj::Code(c) => ValueObj::Code(rc_clone(c)),
        }
    }
}

/// Structural equality of two byte vectors.
pub fn bytes_eq(x: &Vec<u8>, y: &Vec<u8>) -> (r: bool)
    ensures
        r == (x@ == y@),
{
    if x.len() != y.len() {
        return false;
    }
    let mut i: usize = 0;
    while i < x.len()
        invariant
            i <= x.len(),
            x@.len() == y@.len(),
            forall|j: int| 0 <= j < i ==> x@[j] == y@[j],
        decreases x@.len() - i,
    {
        if x[i] != y[i] {
            return false;
        }
        i += 1;
    }
    proof {
        assert(x@ =~= y@);
    }
    true
}

/// Structural equality of two interned-string vectors.
pub fn strs_eq(x: &Vec<Rc<String>>, y: &Vec<Rc<String>>) -> (r: bool)
    ensures
        r == (str_seq_view(x@) == str_seq_view(y@)),
{
    if x.len() != y.len() {
        proof {
            assert(str_seq_view(x@).len() != str_seq_view(y@).len());
        }
        return false;
    }
    let mut i: usize = 0;
    while i < x.len()
        invariant
            i <= x.len(),
            x@.len() == y@.len(),
            forall|j: int| 0 <= j < i ==> x@[j]@ == #[trigger] y@[j]@,
        decreases x@.len() - i,
    {
        if !(*x[i] == *y[i]) {
            assert(str_seq_view(x@)[i as int] != str_seq_view(y@)[i as int]);
            return false;
        }
        i += 1;
    }
    proof {
        assert(str_seq_view(x@) =~= str_seq_view(y@));
    }
    true
}

/// Structural equality of two decoded values, by their mathematical content.
pub fn value_eq(a: &ValueObj, b: &ValueObj) -> (r: bool)
    ensures
        r == (a@ == b@),
    decreases a,
{
    match (a, b) {
        (ValueObj::Nil, ValueObj::Nil) => true,
        (ValueObj::True, ValueObj::True) => true,
        (ValueObj::False, ValueObj::False) => true,
        (ValueObj::Int(x), ValueObj::Int(y)) => *x == *y,
        (ValueObj::Float(x), ValueObj::Float(y)) => *x == *y,
        (ValueObj::Str(x), ValueObj::Str(y)) => **x == **y,
        (ValueObj::Array(x), ValueObj::Array(y)) => values_eq(&**x, &**y),
        (ValueObj::Dict(x), ValueObj::Dict(y)) => pairs_eq(&**x, &**y),
        (ValueObj::Code(x), ValueObj::Code(y)) => code_eq(&**x, &**y),
        _ => false,
    }
}

/// Structural equality of two value vectors.
pub fn values_eq(x: &Vec<ValueObj>, y: &Vec<ValueObj>) -> (r: bool)
    ensures
        r == (seq_view(x@) == seq_view(y@)),
    decreases x,
{
    proof {
        lemma_seq_view(x@);
        lemma_seq_view(y@);
    }
    if x.len() != y.len() {
        return false;
    }
    let mut i: usize = 0;
    while i < x.len()
        invariant
            i <= x.len(),
            x@.len() == y@.len(),
            seq_view(x@).len() == x@.len(),
            seq_view(y@).len() == y@.len(),
            forall|j: int| 0 <= j < x@.len() ==> seq_view(x@)[j] == #[trigger] x@[j]@,
            forall|j: int| 0 <= j < y@.len() ==> seq_view(y@)[j] == #[trigger] y@[j]@,
            forall|j: int| 0 <= j < i ==> x@[j]@ == #[trigger] y@[j]@,
        decreases x@.len() - i,
    {
        if !value_eq(&x[i], &y[i]) {
            assert(seq_view(x@)[i as int] != seq_view(y@)[i as int]);
            return false;
        }
        i += 1;
    }
    proof {
        assert forall|j: int| 0 <= j < x@.len() implies seq_view(x@)[j] == seq_view(y@)[j] by {
            assert(x@[j]@ == y@[j]@);
        }
        assert(seq_view(x@) =~= seq_view(y@));
    }
    true
}

/// Structural equality of two pair vectors.
pub fn pairs_eq(x: &Vec<(ValueObj, ValueObj)>, y: &Vec<(ValueObj, ValueObj)>) -> (r: bool)
    ensures
        r == (pair_seq_view(x@) == pair_seq_view(y@)),
    decreases x,
{
    proof {
        lemma_pair_seq_view(x@);
        lemma_pair_seq_view(y@);
    }
    if x.len() != y.len() {
        return false;
    }
    let mut i: usize = 0;
    while i < x.len()
        invariant
            i <= x.len(),
            x@.len() == y@.len(),
            pair_seq_view(x@).len() == x@.len(),
            pair_seq_view(y@).len() == y@.len(),
            forall|j: int|
                0 <= j < x@.len() ==> pair_seq_view(x@)[j] == (#[trigger] x@[j].0@, x@[j].1@),
            forall|j: int|
                0 <= j < y@.len() ==> pair_seq_view(y@)[j] == (#[trigger] y@[j].0@, y@[j].1@),
            forall|j: int|
                0 <= j < i ==> (#[trigger] x@[j]).0@ == y@[j].0@ && x@[j].1@ == y@[j].1@,
        decreases x@.len() - i,
    {
        if !value_eq(&x[i].0, &y[i].0) {
            assert(pair_seq_view(x@)[i as int] != pair_seq_view(y@)[i as int]);
            return false;
        }
        if !value_eq(&x[i].1, &y[i].1) {
            assert(pair_seq_view(x@)[i as int] != pair_seq_view(y@)[i as int]);
            return false;
        }
        i += 1;
    }
    proof {
        assert forall|j: int|
            0 <= j < x@.len() implies pair_seq_view(x@)[j] == pair_seq_view(y@)[j] by {
            assert((x@[j]).0@ == y@[j].0@ && (x@[j]).1@ == y@[j].1@);
        }
        assert(pair_seq_view(x@) =~= pair_seq_view(y@));
    }
    true
}

/// Structural equality of two code units.
pub fn code_eq(a: &CodeObj, b: &CodeObj) -> (r: bool)
    ensures
        r == (a@ == b@),
    decreases a,
{
    a.argcount == b.argcount && a.posonlyargcount == b.posonlyargcount
        && a.kwonlyargcount == b.kwonlyargcount && a.nlocals == b.nlocals
        && a.stacksize == b.stacksize && a.flags == b.flags && bytes_eq(&a.code, &b.code)
        && values_eq(&a.consts, &b.consts) && strs_eq(&a.names, &b.names)
        && strs_eq(&a.varnames, &b.varnames) && strs_eq(&a.freevars, &b.freevars)
        && strs_eq(&a.cellvars, &b.cellvars) && *a.filename == *b.filename && *a.name == *b.name
        && a.firstlineno == b.firstlineno && bytes_eq(&a.lnotab, &b.lnotab)
}

} // verus!
