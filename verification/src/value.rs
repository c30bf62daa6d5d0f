//! The reflective (host-side) value model.
//!
//! A reflective value is a tree: composites (structs, tuples, lists, arrays,
//! maps, enums) whose leaves are primitives. The model is a closed sum type,
//! so dispatch over the structural kind is exhaustive.

use vstd::prelude::*;

verus! {

broadcast use vstd::std_specs::vec::group_vec_axioms, vstd::seq::group_seq_axioms;

/// A primitive reflective value: one concrete scalar or string.
///
/// A 32-bit float is held as the bit pattern of its exact 64-bit widening,
/// and a 64-bit float as its own bit pattern, so that the conversion logic
/// can move float values around without performing float arithmetic.
#[derive(Debug, Clone, PartialEq)]
pub enum Primitive {
    Bool(bool),
    I8(i8),
    I16(i16),
    I32(i32),
    I64(i64),
    ISize(isize),
    U8(u8),
    U16(u16),
    U32(u32),
    U64(u64),
    USize(usize),
    /// A 32-bit float, held as the bits of the 64-bit float it widens to.
    Float32(u64),
    /// A 64-bit float, held as its bit pattern.
    Float64(u64),
    /// A string or string-slice value.
    Text(String),
    /// The host's unit ("no data") value.
    Unit,
    /// A primitive of a type the coercion table does not recognize.
    Opaque,
}

/// The mathematical model of a [`Primitive`].
pub enum PrimV {
    Bool(bool),
    I8(i8),
    I16(i16),
    I32(i32),
    I64(i64),
    ISize(isize),
    U8(u8),
    U16(u16),
    U32(u32),
    U64(u64),
    USize(usize),
    Float32(u64),
    Float64(u64),
    Text(Seq<char>),
    Unit,
    Opaque,
}

impl View for Primitive {
    type V = PrimV;

    open spec fn view(&self) -> PrimV {
        match self {
            Primitive::Bool(b) => PrimV::Bool(*b),
            Primitive::I8(x) => PrimV::I8(*x),
            Primitive::I16(x) => PrimV::I16(*x),
            Primitive::I32(x) => PrimV::I32(*x),
            Primitive::I64(x) => PrimV::I64(*x),
            Primitive::ISize(x) => PrimV::ISize(*x),
            Primitive::U8(x) => PrimV::U8(*x),
            Primitive::U16(x) => PrimV::U16(*x),
            Primitive::U32(x) => PrimV::U32(*x),
            Primitive::U64(x) => PrimV::U64(*x),
            Primitive::USize(x) => PrimV::USize(*x),
            Primitive::Float32(b) => PrimV::Float32(*b),
            Primitive::Float64(b) => PrimV::Float64(*b),
            Primitive::Text(s) => PrimV::Text(s@),
            Primitive::Unit => PrimV::Unit,
            Primitive::Opaque => PrimV::Opaque,
        }
    }
}

/// A reflective value: the closed tagged union over the structural kinds
/// a host value can take.
#[derive(Debug, PartialEq)]
pub enum ReflectValue {
    /// Named fields in declaration order.
    Struct(Vec<(String, ReflectValue)>),
    /// Positional fields of a tuple struct.
    TupleStruct(Vec<ReflectValue>),
    /// Positional fields of a tuple.
    Tuple(Vec<ReflectValue>),
    /// An ordered sequence of elements.
    List(Vec<ReflectValue>),
    /// A fixed-length indexed sequence.
    Array(Vec<ReflectValue>),
    /// Ordered key/value pairs; keys need not be primitives.
    Mapping(Vec<(ReflectValue, ReflectValue)>),
    /// A selected variant name plus its payload fields, each optionally named.
    Enum { variant: String, fields: Vec<(Option<String>, ReflectValue)> },
    /// A primitive leaf.
    Value(Primitive),
}

/// The mathematical model of a [`ReflectValue`].
pub enum ReflectV {
    Struct(Seq<(Seq<char>, ReflectV)>),
    TupleStruct(Seq<ReflectV>),
    Tuple(Seq<ReflectV>),
    List(Seq<ReflectV>),
    Array(Seq<ReflectV>),
    Mapping(Seq<(ReflectV, ReflectV)>),
    Enum { variant: Seq<char>, fields: Seq<(Option<Seq<char>>, ReflectV)> },
    Value(PrimV),
}

/// Models of the elements of `s` from index `i` on.
pub open spec fn reflect_views_from(s: Seq<ReflectValue>, i: int) -> Seq<ReflectV>
    decreases s, s.len() - i, 0int,
{
    if i < 0 || i >= s.len() {
        Seq::empty()
    } else {
        seq![reflect_view(s[i])] + reflect_views_from(s, i + 1)
    }
}

/// Models of named fields from index `i` on.
pub open spec fn named_views_from(s: Seq<(String, ReflectValue)>, i: int) -> Seq<
    (Seq<char>, ReflectV),
>
    decreases s, s.len() - i, 0int,
{
    if i < 0 || i >= s.len() {
        Seq::empty()
    } else {
        seq![(s[i].0@, reflect_view(s[i].1))] + named_views_from(s, i + 1)
    }
}

/// Models of key/value entries from index `i` on.
pub open spec fn entry_views_from(s: Seq<(ReflectValue, ReflectValue)>, i: int) -> Seq<
    (ReflectV, ReflectV),
>
    decreases s, s.len() - i, 0int,
{
    if i < 0 || i >= s.len() {
        Seq::empty()
    } else {
        seq![(reflect_view(s[i].0), reflect_view(s[i].1))] + entry_views_from(s, i + 1)
    }
}

/// Models of optionally named enum payload fields from index `i` on.
pub open spec fn payload_views_from(s: Seq<(Option<String>, ReflectValue)>, i: int) -> Seq<
    (Option<Seq<char>>, ReflectV),
>
    decreases s, s.len() - i, 0int,
{
    if i < 0 || i >= s.len() {
        Seq::empty()
    } else {
        seq![
            (
                match s[i].0 {
                    Some(n) => Some(n@),
                    None => None,
                },
                reflect_view(s[i].1),
            ),
        ] + payload_views_from(s, i + 1)
    }
}

/// The mathematical model of a reflective value.
pub open spec fn reflect_view(v: ReflectValue) -> ReflectV
    decreases v, 1int,
{
    match v {
        ReflectValue::Struct(fields) => ReflectV::Struct(named_views_from(fields@, 0)),
        ReflectValue::TupleStruct(items) => ReflectV::TupleStruct(reflect_views_from(items@, 0)),
        ReflectValue::Tuple(items) => ReflectV::Tuple(reflect_views_from(items@, 0)),
        ReflectValue::List(items) => ReflectV::List(reflect_views_from(items@, 0)),
        ReflectValue::Array(items) => ReflectV::Array(reflect_views_from(items@, 0)),
        ReflectValue::Mapping(entries) => ReflectV::Mapping(entry_views_from(entries@, 0)),
        ReflectValue::Enum { variant, fields } => ReflectV::Enum {
            variant: variant@,
            fields: payload_views_from(fields@, 0),
        },
        ReflectValue::Value(p) => ReflectV::Value(p@),
    }
}

impl View for ReflectValue {
    type V = ReflectV;

    open spec fn view(&self) -> ReflectV {
        reflect_view(*self)
    }
}

/// The elementwise model of a suffix has the suffix's length and models each
/// element in place.
pub proof fn lemma_reflect_views_from(s: Seq<ReflectValue>, i: int)
    requires
        0 <= i <= s.len(),
    ensures
        reflect_views_from(s, i).len() == s.len() - i,
        forall|j: int|
            i <= j < s.len() ==> reflect_views_from(s, i)[j - i] == reflect_view(#[trigger] s[j]),
    decreases s.len() - i,
{
    if i < s.len() {
        lemma_reflect_views_from(s, i + 1);
    }
}

/// The named-field model of a suffix, elementwise.
pub proof fn lemma_named_views_from(s: Seq<(String, ReflectValue)>, i: int)
    requires
        0 <= i <= s.len(),
    ensures
        named_views_from(s, i).len() == s.len() - i,
        forall|j: int|
            i <= j < s.len() ==> named_views_from(s, i)[j - i] == ((#[trigger] s[j]).0@,
            reflect_view(s[j].1)),
    decreases s.len() - i,
{
    if i < s.len() {
        lemma_named_views_from(s, i + 1);
    }
}

/// The entry model of a suffix, elementwise.
pub proof fn lemma_entry_views_from(s: Seq<(ReflectValue, ReflectValue)>, i: int)
    requires
        0 <= i <= s.len(),
    ensures
        entry_views_from(s, i).len() == s.len() - i,
        forall|j: int|
            i <= j < s.len() ==> entry_views_from(s, i)[j - i] == (reflect_view(
                (#[trigger] s[j]).0,
            ), reflect_view(s[j].1)),
    decreases s.len() - i,
{
    if i < s.len() {
        lemma_entry_views_from(s, i + 1);
    }
}

/// The payload-field model of a suffix, elementwise.
pub proof fn lemma_payload_views_from(s: Seq<(Option<String>, ReflectValue)>, i: int)
    requires
        0 <= i <= s.len(),
    ensures
        payload_views_from(s, i).len() == s.len() - i,
        forall|j: int|
            i <= j < s.len() ==> payload_views_from(s, i)[j - i] == (
                match (#[trigger] s[j]).0 {
                    Some(n) => Some(n@),
                    None => None,
                },
                reflect_view(s[j].1),
            ),
    decreases s.len() - i,
{
    if i < s.len() {
        lemma_payload_views_from(s, i + 1);
    }
}

} // verus!
