//! The scripting (interpreter-side) value model.
//!
//! A scripting value is a tagged union over the interpreter's runtime tags;
//! an object further specializes by its concrete kind into a plain object,
//! an array, a map, or a set.

use vstd::prelude::*;

verus! {

broadcast use vstd::std_specs::vec::group_vec_axioms, vstd::seq::group_seq_axioms;

/// A scripting value.
///
/// A rational is a 64-bit float, held as its bit pattern. A big integer is
/// held as its exact decimal text (an optional leading minus sign followed by
/// digits), since no fixed-width host scalar could carry it.
#[derive(Debug, PartialEq)]
pub enum ScriptValue {
    Null,
    Undefined,
    Boolean(bool),
    /// The interpreter's 32-bit integer tag.
    Integer(i32),
    /// A 64-bit float, held as its bit pattern.
    Rational(u64),
    Text(String),
    /// An arbitrary-precision integer, held as its decimal text.
    BigInt(String),
    /// A symbol; only its tag matters to the bridge, which rejects it inbound.
    Symbol,
    Object(ScriptObject),
}

/// The concrete kind of a scripting object.
#[derive(Debug, PartialEq)]
pub enum ScriptObject {
    /// A plain object: own properties in insertion order.
    Plain(Vec<(String, ScriptValue)>),
    /// An array: elements in index order.
    Array(Vec<ScriptValue>),
    /// A map: entries in insertion order.
    MapObject(Vec<(ScriptValue, ScriptValue)>),
    /// A set: members in insertion order.
    SetObject(Vec<ScriptValue>),
}

/// The mathematical model of a [`ScriptValue`].
pub enum ScriptV {
    Null,
    Undefined,
    Boolean(bool),
    Integer(i32),
    Rational(u64),
    Text(Seq<char>),
    BigInt(Seq<char>),
    Symbol,
    Object(ScriptObjV),
}

/// The mathematical model of a [`ScriptObject`].
pub enum ScriptObjV {
    Plain(Seq<(Seq<char>, ScriptV)>),
    Array(Seq<ScriptV>),
    MapObject(Seq<(ScriptV, ScriptV)>),
    SetObject(Seq<ScriptV>),
}

/// Models of the elements of `s` from index `i` on.
pub open spec fn script_views_from(s: Seq<ScriptValue>, i: int) -> Seq<ScriptV>
    decreases s, s.len() - i, 0int,
{
    if i < 0 || i >= s.len() {
        Seq::empty()
    } else {
        seq![script_view(s[i])] + script_views_from(s, i + 1)
    }
}

/// Models of own properties from index `i` on.
pub open spec fn prop_views_from(s: Seq<(String, ScriptValue)>, i: int) -> Seq<
    (Seq<char>, ScriptV),
>
    decreases s, s.len() - i, 0int,
{
    if i < 0 || i >= s.len() {
        Seq::empty()
    } else {
        seq![(s[i].0@, script_view(s[i].1))] + prop_views_from(s, i + 1)
    }
}

/// Models of map entries from index `i` on.
pub open spec fn pair_views_from(s: Seq<(ScriptValue, ScriptValue)>, i: int) -> Seq<
    (ScriptV, ScriptV),
>
    decreases s, s.len() - i, 0int,
{
    if i < 0 || i >= s.len() {
        Seq::empty()
    } else {
        seq![(script_view(s[i].0), script_view(s[i].1))] + pair_views_from(s, i + 1)
    }
}

/// The mathematical model of a scripting value.
pub open spec fn script_view(v: ScriptValue) -> ScriptV
    decreases v, 2int,
{
    match v {
        ScriptValue::Null => ScriptV::Null,
        ScriptValue::Undefined => ScriptV::Undefined,
        ScriptValue::Boolean(b) => ScriptV::Boolean(b),
        ScriptValue::Integer(i) => ScriptV::Integer(i),
        ScriptValue::Rational(bits) => ScriptV::Rational(bits),
        ScriptValue::Text(s) => ScriptV::Text(s@),
        ScriptValue::BigInt(s) => ScriptV::BigInt(s@),
        ScriptValue::Symbol => ScriptV::Symbol,
        ScriptValue::Object(o) => ScriptV::Object(script_object_view(o)),
    }
}

/// The mathematical model of a scripting object.
pub open spec fn script_object_view(o: ScriptObject) -> ScriptObjV
    decreases o, 1int,
{
    match o {
        ScriptObject::Plain(props) => ScriptObjV::Plain(prop_views_from(props@, 0)),
        ScriptObject::Array(items) => ScriptObjV::Array(script_views_from(items@, 0)),
        ScriptObject::MapObject(entries) => ScriptObjV::MapObject(pair_views_from(entries@, 0)),
        ScriptObject::SetObject(items) => ScriptObjV::SetObject(script_views_from(items@, 0)),
    }
}

impl View for ScriptValue {
    type V = ScriptV;

    open spec fn view(&self) -> ScriptV {
        script_view(*self)
    }
}

impl View for ScriptObject {
    type V = ScriptObjV;

    open spec fn view(&self) -> ScriptObjV {
        script_object_view(*self)
    }
}

/// The elementwise model of a suffix has the suffix's length and models each
/// element in place.
pub proof fn lemma_script_views_from(s: Seq<ScriptValue>, i: int)
    requires
        0 <= i <= s.len(),
    ensures
        script_views_from(s, i).len() == s.len() - i,
        forall|j: int|
            i <= j < s.len() ==> script_views_from(s, i)[j - i] == script_view(#[trigger] s[j]),
    decreases s.len() - i,
{
    if i < s.len() {
        lemma_script_views_from(s, i + 1);
    }
}

/// The property model of a suffix, elementwise.
pub proof fn lemma_prop_views_from(s: Seq<(String, ScriptValue)>, i: int)
    requires
        0 <= i <= s.len(),
    ensures
        prop_views_from(s, i).len() == s.len() - i,
        forall|j: int|
            i <= j < s.len() ==> prop_views_from(s, i)[j - i] == ((#[trigger] s[j]).0@, script_view(
                s[j].1,
            )),
    decreases s.len() - i,
{
    if i < s.len() {
        lemma_prop_views_from(s, i + 1);
    }
}

/// The entry model of a suffix, elementwise.
pub proof fn lemma_pair_views_from(s: Seq<(ScriptValue, ScriptValue)>, i: int)
    requires
        0 <= i <= s.len(),
    ensures
        pair_views_from(s, i).len() == s.len() - i,
        forall|j: int|
            i <= j < s.len() ==> pair_views_from(s, i)[j - i] == (script_view(
                (#[trigger] s[j]).0,
            ), script_view(s[j].1)),
    decreases s.len() - i,
{
    if i < s.len() {
        lemma_pair_views_from(s, i + 1);
    }
}

} // verus!
