//! The dynamic reflective value model: the untyped stand-in that inbound
//! conversion produces when no concrete host type is known.

use vstd::prelude::*;

verus! {

broadcast use vstd::std_specs::vec::group_vec_axioms, vstd::seq::group_seq_axioms;

/// A primitive produced by inbound conversion.
///
/// The inbound direction normalizes every scripting number to the host's
/// 32-bit float type. This model cannot perform the float conversion itself,
/// so the two float-bearing variants record the exact source scalar; whoever
/// materializes the value into a concrete host float performs the narrowing.
#[derive(Debug, Clone, PartialEq)]
pub enum DynPrimitive {
    /// The host's unit value, from a scripting null or undefined.
    Unit,
    Bool(bool),
    /// A 32-bit float primitive: the value of this integer, rounded to
    /// 32-bit float precision on materialization.
    Float32OfInt(i32),
    /// A 32-bit float primitive: the 64-bit float with these bits, narrowed
    /// on materialization.
    Float32OfBits(u64),
    /// A string, either verbatim or the decimal text of a big integer.
    Text(String),
}

/// The mathematical model of a [`DynPrimitive`].
pub enum DynPrimV {
    Unit,
    Bool(bool),
    Float32OfInt(i32),
    Float32OfBits(u64),
    Text(Seq<char>),
}

impl View for DynPrimitive {
    type V = DynPrimV;

    open spec fn view(&self) -> DynPrimV {
        match self {
            DynPrimitive::Unit => DynPrimV::Unit,
            DynPrimitive::Bool(b) => DynPrimV::Bool(*b),
            DynPrimitive::Float32OfInt(i) => DynPrimV::Float32OfInt(*i),
            DynPrimitive::Float32OfBits(b) => DynPrimV::Float32OfBits(*b),
            DynPrimitive::Text(s) => DynPrimV::Text(s@),
        }
    }
}

/// A dynamic reflective value: a generic struct, list, or map shape, or a
/// primitive leaf. Constructed fresh per inbound call and owned by the caller.
#[derive(Debug, PartialEq)]
pub enum DynValue {
    /// Named fields in insertion order.
    Struct(Vec<(String, DynValue)>),
    /// Ordered elements.
    List(Vec<DynValue>),
    /// Ordered key/value pairs.
    Mapping(Vec<(DynValue, DynValue)>),
    /// A primitive leaf.
    Value(DynPrimitive),
}

/// The mathematical model of a [`DynValue`].
pub enum DynV {
    Struct(Seq<(Seq<char>, DynV)>),
    List(Seq<DynV>),
    Mapping(Seq<(DynV, DynV)>),
    Value(DynPrimV),
}

/// Models of the elements of `s` from index `i` on.
pub open spec fn dyn_views_from(s: Seq<DynValue>, i: int) -> Seq<DynV>
    decreases s, s.len() - i, 0int,
{
    if i < 0 || i >= s.len() {
        Seq::empty()
    } else {
        seq![dyn_view(s[i])] + dyn_views_from(s, i + 1)
    }
}

/// Models of named fields from index `i` on.
pub open spec fn dyn_field_views_from(s: Seq<(String, DynValue)>, i: int) -> Seq<
    (Seq<char>, DynV),
>
    decreases s, s.len() - i, 0int,
{
    if i < 0 || i >= s.len() {
        Seq::empty()
    } else {
        seq![(s[i].0@, dyn_view(s[i].1))] + dyn_field_views_from(s, i + 1)
    }
}

/// Models of key/value entries from index `i` on.
pub open spec fn dyn_entry_views_from(s: Seq<(DynValue, DynValue)>, i: int) -> Seq<(DynV, DynV)>
    decreases s, s.len() - i, 0int,
{
    if i < 0 || i >= s.len() {
        Seq::empty()
    } else {
        seq![(dyn_view(s[i].0), dyn_view(s[i].1))] + dyn_entry_views_from(s, i + 1)
    }
}

/// The mathematical model of a dynamic reflective value.
pub open spec fn dyn_view(v: DynValue) -> DynV
    decreases v, 1int,
{
    match v {
        DynValue::Struct(fields) => DynV::Struct(dyn_field_views_from(fields@, 0)),
        DynValue::List(items) => DynV::List(dyn_views_from(items@, 0)),
        DynValue::Mapping(entries) => DynV::Mapping(dyn_entry_views_from(entries@, 0)),
        DynValue::Value(p) => DynV::Value(p@),
    }
}

impl View for DynValue {
    type V = DynV;

    open spec fn view(&self) -> DynV {
        dyn_view(*self)
    }
}

/// The elementwise model of a suffix has the suffix's length and models each
/// element in place.
pub proof fn lemma_dyn_views_from(s: Seq<DynValue>, i: int)
    requires
        0 <= i <= s.len(),
    ensures
        dyn_views_from(s, i).len() == s.len() - i,
        forall|j: int|
            i <= j < s.len() ==> dyn_views_from(s, i)[j - i] == dyn_view(#[trigger] s[j]),
    decreases s.len() - i,
{
    if i < s.len() {
        lemma_dyn_views_from(s, i + 1);
    }
}

/// The named-field model of a suffix, elementwise.
pub proof fn lemma_dyn_field_views_from(s: Seq<(String, DynValue)>, i: int)
    requires
        0 <= i <= s.len(),
    ensures
        dyn_field_views_from(s, i).len() == s.len() - i,
        forall|j: int|
            i <= j < s.len() ==> dyn_field_views_from(s, i)[j - i] == ((#[trigger] s[j]).0@,
            dyn_view(s[j].1)),
    decreases s.len() - i,
{
    if i < s.len() {
        lemma_dyn_field_views_from(s, i + 1);
    }
}

/// The entry model of a suffix, elementwise.
pub proof fn lemma_dyn_entry_views_from(s: Seq<(DynValue, DynValue)>, i: int)
    requires
        0 <= i <= s.len(),
    ensures
        dyn_entry_views_from(s, i).len() == s.len() - i,
        forall|j: int|
            i <= j < s.len() ==> dyn_entry_views_from(s, i)[j - i] == (dyn_view(
                (#[trigger] s[j]).0,
            ), dyn_view(s[j].1)),
    decreases s.len() - i,
{
    if i < s.len() {
        lemma_dyn_entry_views_from(s, i + 1);
    }
}

} // verus!
