//! The outbound converter: reflective value to scripting value.
//!
//! Dispatch is on the reflective value's structural kind. Composites are
//! rebuilt recursively; primitives go through the coercion table; an enum
//! becomes a plain object whose payload fields are followed by one reserved
//! variant-marker property holding the variant name.

use vstd::prelude::*;
use vstd::string::StringExecFns;
use crate::digits::{dec_int_of, dec_of, i64_to_decimal, u64_to_decimal};
use crate::error::ConversionError;
use crate::script::{
    lemma_pair_views_from, script_view, lemma_prop_views_from, lemma_script_views_from, pair_views_from,
    prop_views_from, script_views_from, ScriptObjV, ScriptObject, ScriptV, ScriptValue,
};
use crate::value::{
    entry_views_from, reflect_view, lemma_entry_views_from, lemma_named_views_from, lemma_payload_views_from,
    lemma_reflect_views_from, named_views_from, payload_views_from, reflect_views_from, PrimV,
    Primitive, ReflectV, ReflectValue,
};

verus! {

broadcast use vstd::std_specs::vec::group_vec_axioms, vstd::seq::group_seq_axioms;

/// The reserved property name that carries an enum's variant name.
pub open spec fn variant_key() -> Seq<char> {
    "__variant"@
}

/// The reserved variant-marker property name.
pub fn variant_key_str() -> (r: &'static str)
    ensures
        r@ == variant_key(),
{
    "__variant"
}

/// The outbound primitive coercion table.
///
/// Narrow integers widen to the scripting 32-bit integer; wide integers
/// become big integers carrying their exact decimal text; floats become
/// rationals; a value of an unrecognized type becomes null, silently.
pub open spec fn prim_to_js(p: PrimV) -> ScriptV {
    match p {
        PrimV::Bool(b) => ScriptV::Boolean(b),
        PrimV::I8(x) => ScriptV::Integer(x as i32),
        PrimV::I16(x) => ScriptV::Integer(x as i32),
        PrimV::I32(x) => ScriptV::Integer(x),
        PrimV::I64(x) => ScriptV::BigInt(dec_int_of(x as int)),
        PrimV::ISize(x) => ScriptV::BigInt(dec_int_of(x as int)),
        PrimV::U8(x) => ScriptV::Integer(x as i32),
        PrimV::U16(x) => ScriptV::Integer(x as i32),
        PrimV::U32(x) => ScriptV::BigInt(dec_of(x as nat)),
        PrimV::U64(x) => ScriptV::BigInt(dec_of(x as nat)),
        PrimV::USize(x) => ScriptV::BigInt(dec_of(x as nat)),
        PrimV::Float32(b) => ScriptV::Rational(b),
        PrimV::Float64(b) => ScriptV::Rational(b),
        PrimV::Text(s) => ScriptV::Text(s),
        PrimV::Unit => ScriptV::Null,
        PrimV::Opaque => ScriptV::Null,
    }
}

/// Outbound conversion of the elements of `s` from index `i` on: the first
/// failure wins, else the converted elements in order.
pub open spec fn js_elems_of(s: Seq<ReflectV>, i: int) -> Result<Seq<ScriptV>, ConversionError>
    decreases s, s.len() - i, 0int,
{
    if i < 0 || i >= s.len() {
        Ok(Seq::empty())
    } else {
        match js_value_of(s[i]) {
            Ok(v) => match js_elems_of(s, i + 1) {
                Ok(rest) => Ok(seq![v] + rest),
                Err(e) => Err(e),
            },
            Err(e) => Err(e),
        }
    }
}

/// Outbound conversion of named fields from index `i` on: each field's value
/// converted, its name kept.
pub open spec fn js_props_of(s: Seq<(Seq<char>, ReflectV)>, i: int) -> Result<
    Seq<(Seq<char>, ScriptV)>,
    ConversionError,
>
    decreases s, s.len() - i, 0int,
{
    if i < 0 || i >= s.len() {
        Ok(Seq::empty())
    } else {
        match js_value_of(s[i].1) {
            Ok(v) => match js_props_of(s, i + 1) {
                Ok(rest) => Ok(seq![(s[i].0, v)] + rest),
                Err(e) => Err(e),
            },
            Err(e) => Err(e),
        }
    }
}

/// Outbound conversion of key/value entries from index `i` on: the key is
/// converted before the value.
pub open spec fn js_pairs_of(s: Seq<(ReflectV, ReflectV)>, i: int) -> Result<
    Seq<(ScriptV, ScriptV)>,
    ConversionError,
>
    decreases s, s.len() - i, 0int,
{
    if i < 0 || i >= s.len() {
        Ok(Seq::empty())
    } else {
        match js_value_of(s[i].0) {
            Ok(k) => match js_value_of(s[i].1) {
                Ok(v) => match js_pairs_of(s, i + 1) {
                    Ok(rest) => Ok(seq![(k, v)] + rest),
                    Err(e) => Err(e),
                },
                Err(e) => Err(e),
            },
            Err(e) => Err(e),
        }
    }
}

/// Outbound conversion of enum payload fields from index `i` on: a field
/// without a name fails with missing metadata before its value is converted.
pub open spec fn js_payload_of(s: Seq<(Option<Seq<char>>, ReflectV)>, i: int) -> Result<
    Seq<(Seq<char>, ScriptV)>,
    ConversionError,
>
    decreases s, s.len() - i, 0int,
{
    if i < 0 || i >= s.len() {
        Ok(Seq::empty())
    } else {
        match s[i].0 {
            None => Err(ConversionError::MissingMetadata),
            Some(name) => match js_value_of(s[i].1) {
                Ok(v) => match js_payload_of(s, i + 1) {
                    Ok(rest) => Ok(seq![(name, v)] + rest),
                    Err(e) => Err(e),
                },
                Err(e) => Err(e),
            },
        }
    }
}

/// Outbound conversion of a struct: a plain object, one property per field,
/// in field order.
pub open spec fn js_object_of(s: Seq<(Seq<char>, ReflectV)>) -> Result<ScriptV, ConversionError>
    decreases s, s.len(), 1int,
{
    match js_props_of(s, 0) {
        Ok(props) => Ok(ScriptV::Object(ScriptObjV::Plain(props))),
        Err(e) => Err(e),
    }
}

/// Outbound conversion of a positional composite: an array, elements in order.
pub open spec fn js_array_of(s: Seq<ReflectV>) -> Result<ScriptV, ConversionError>
    decreases s, s.len(), 1int,
{
    match js_elems_of(s, 0) {
        Ok(elems) => Ok(ScriptV::Object(ScriptObjV::Array(elems))),
        Err(e) => Err(e),
    }
}

/// Outbound conversion of a map: entries in source order.
pub open spec fn js_map_of(s: Seq<(ReflectV, ReflectV)>) -> Result<ScriptV, ConversionError>
    decreases s, s.len(), 1int,
{
    match js_pairs_of(s, 0) {
        Ok(pairs) => Ok(ScriptV::Object(ScriptObjV::MapObject(pairs))),
        Err(e) => Err(e),
    }
}

/// Outbound conversion of an enum: a plain object holding the named payload
/// fields in order, then the reserved variant-marker property, added last,
/// holding the variant name as a string.
pub open spec fn js_enum_of(
    variant: Seq<char>,
    fields: Seq<(Option<Seq<char>>, ReflectV)>,
) -> Result<ScriptV, ConversionError>
    decreases fields, fields.len(), 1int,
{
    match js_payload_of(fields, 0) {
        Ok(props) => Ok(
            ScriptV::Object(ScriptObjV::Plain(props.push((variant_key(), ScriptV::Text(variant))))),
        ),
        Err(e) => Err(e),
    }
}

/// The outbound conversion of a reflective value, by structural kind.
pub open spec fn js_value_of(v: ReflectV) -> Result<ScriptV, ConversionError>
    decreases v, 2int,
{
    match v {
        ReflectV::Struct(fields) => js_object_of(fields),
        ReflectV::TupleStruct(items) => js_array_of(items),
        ReflectV::Tuple(items) => js_array_of(items),
        ReflectV::List(items) => js_array_of(items),
        ReflectV::Array(items) => js_array_of(items),
        ReflectV::Mapping(entries) => js_map_of(entries),
        ReflectV::Enum { variant, fields } => js_enum_of(variant, fields),
        ReflectV::Value(p) => Ok(prim_to_js(p)),
    }
}

/// The model of an outbound conversion result.
pub open spec fn js_result_view(r: Result<ScriptValue, ConversionError>) -> Result<
    ScriptV,
    ConversionError,
> {
    match r {
        Ok(v) => Ok(v@),
        Err(e) => Err(e),
    }
}

/// If every element from `i` on converts, the suffix conversion returns
/// exactly those results in order.
pub proof fn lemma_js_elems_of_all_ok(s: Seq<ReflectV>, ws: Seq<ScriptV>, i: int)
    requires
        0 <= i <= s.len(),
        ws.len() == s.len() - i,
        forall|j: int|
            i <= j < s.len() ==> js_value_of(#[trigger] s[j]) == Ok::<ScriptV, ConversionError>(
                ws[j - i],
            ),
    ensures
        js_elems_of(s, i) == Ok::<Seq<ScriptV>, ConversionError>(ws),
    decreases s.len() - i,
{
    if i < s.len() {
        let tail = ws.drop_first();
        assert forall|j: int| i + 1 <= j < s.len() implies js_value_of(#[trigger] s[j]) == Ok::<
            ScriptV,
            ConversionError,
        >(tail[j - (i + 1)]) by {
            assert(tail[j - (i + 1)] == ws[j - i]);
        }
        lemma_js_elems_of_all_ok(s, tail, i + 1);
        assert(js_value_of(s[i]) == Ok::<ScriptV, ConversionError>(ws[i - i]));
        assert(seq![ws[0]] + tail =~= ws);
    } else {
        assert(ws =~= Seq::<ScriptV>::empty());
    }
}

/// If the elements before `k` convert and the one at `k` fails, the suffix
/// conversion from `i` fails with that error.
pub proof fn lemma_js_elems_of_err(s: Seq<ReflectV>, i: int, k: int, e: ConversionError)
    requires
        0 <= i <= k < s.len(),
        forall|j: int| i <= j < k ==> (js_value_of(#[trigger] s[j])) is Ok,
        js_value_of(s[k]) == Err::<ScriptV, ConversionError>(e),
    ensures
        js_elems_of(s, i) == Err::<Seq<ScriptV>, ConversionError>(e),
    decreases k - i,
{
    if i < k {
        lemma_js_elems_of_err(s, i + 1, k, e);
    }
}

/// If every field value from `i` on converts, the suffix conversion returns
/// the named results in order.
pub proof fn lemma_js_props_of_all_ok(
    s: Seq<(Seq<char>, ReflectV)>,
    ws: Seq<(Seq<char>, ScriptV)>,
    i: int,
)
    requires
        0 <= i <= s.len(),
        ws.len() == s.len() - i,
        forall|j: int|
            i <= j < s.len() ==> ws[j - i].0 == (#[trigger] s[j]).0 && js_value_of(s[j].1)
                == Ok::<ScriptV, ConversionError>(ws[j - i].1),
    ensures
        js_props_of(s, i) == Ok::<Seq<(Seq<char>, ScriptV)>, ConversionError>(ws),
    decreases s.len() - i,
{
    if i < s.len() {
        let tail = ws.drop_first();
        assert forall|j: int| i + 1 <= j < s.len() implies tail[j - (i + 1)].0 == (
        #[trigger] s[j]).0 && js_value_of(s[j].1) == Ok::<ScriptV, ConversionError>(
            tail[j - (i + 1)].1,
        ) by {
            assert(tail[j - (i + 1)] == ws[j - i]);
            assert(ws[j - i].0 == s[j].0);
        }
        lemma_js_props_of_all_ok(s, tail, i + 1);
        assert(ws[i - i].0 == s[i].0 && js_value_of(s[i].1) == Ok::<ScriptV, ConversionError>(
            ws[i - i].1,
        ));
        assert(ws[0] == (s[i].0, js_value_of(s[i].1)->Ok_0));
        assert(seq![ws[0]] + tail =~= ws);
    } else {
        assert(ws =~= Seq::<(Seq<char>, ScriptV)>::empty());
    }
}

/// If the field values before `k` convert and the one at `k` fails, the
/// suffix conversion from `i` fails with that error.
pub proof fn lemma_js_props_of_err(s: Seq<(Seq<char>, ReflectV)>, i: int, k: int, e: ConversionError)
    requires
        0 <= i <= k < s.len(),
        forall|j: int| i <= j < k ==> (js_value_of((#[trigger] s[j]).1)) is Ok,
        js_value_of(s[k].1) == Err::<ScriptV, ConversionError>(e),
    ensures
        js_props_of(s, i) == Err::<Seq<(Seq<char>, ScriptV)>, ConversionError>(e),
    decreases k - i,
{
    if i < k {
        lemma_js_props_of_err(s, i + 1, k, e);
    }
}

/// If every entry from `i` on converts, the suffix conversion returns the
/// converted pairs in order.
pub proof fn lemma_js_pairs_of_all_ok(
    s: Seq<(ReflectV, ReflectV)>,
    ws: Seq<(ScriptV, ScriptV)>,
    i: int,
)
    requires
        0 <= i <= s.len(),
        ws.len() == s.len() - i,
        forall|j: int|
            i <= j < s.len() ==> js_value_of((#[trigger] s[j]).0) == Ok::<ScriptV, ConversionError>(
                ws[j - i].0,
            ) && js_value_of(s[j].1) == Ok::<ScriptV, ConversionError>(ws[j - i].1),
    ensures
        js_pairs_of(s, i) == Ok::<Seq<(ScriptV, ScriptV)>, ConversionError>(ws),
    decreases s.len() - i,
{
    if i < s.len() {
        let tail = ws.drop_first();
        assert forall|j: int| i + 1 <= j < s.len() implies js_value_of((#[trigger] s[j]).0)
            == Ok::<ScriptV, ConversionError>(tail[j - (i + 1)].0) && js_value_of(s[j].1) == Ok::<
            ScriptV,
            ConversionError,
        >(tail[j - (i + 1)].1) by {
            assert(tail[j - (i + 1)] == ws[j - i]);
            assert(js_value_of(s[j].0) == Ok::<ScriptV, ConversionError>(ws[j - i].0));
        }
        lemma_js_pairs_of_all_ok(s, tail, i + 1);
        assert(js_value_of(s[i].0) == Ok::<ScriptV, ConversionError>(ws[i - i].0) && js_value_of(
            s[i].1,
        ) == Ok::<ScriptV, ConversionError>(ws[i - i].1));
        assert(ws[0] == (js_value_of(s[i].0)->Ok_0, js_value_of(s[i].1)->Ok_0));
        assert(seq![ws[0]] + tail =~= ws);
    } else {
        assert(ws =~= Seq::<(ScriptV, ScriptV)>::empty());
    }
}

/// If the entries before `k` convert and at `k` the key or the value fails,
/// the suffix conversion from `i` fails with that error.
pub proof fn lemma_js_pairs_of_err(s: Seq<(ReflectV, ReflectV)>, i: int, k: int, e: ConversionError)
    requires
        0 <= i <= k < s.len(),
        forall|j: int|
            i <= j < k ==> (js_value_of((#[trigger] s[j]).0)) is Ok && (js_value_of(s[j].1)) is Ok,
        js_value_of(s[k].0) == Err::<ScriptV, ConversionError>(e) || (js_value_of(s[k].0) is Ok
            && js_value_of(s[k].1) == Err::<ScriptV, ConversionError>(e)),
    ensures
        js_pairs_of(s, i) == Err::<Seq<(ScriptV, ScriptV)>, ConversionError>(e),
    decreases k - i,
{
    if i < k {
        lemma_js_pairs_of_err(s, i + 1, k, e);
    }
}

/// If every payload field from `i` on is named and its value converts, the
/// suffix conversion returns the named results in order.
pub proof fn lemma_js_payload_of_all_ok(
    s: Seq<(Option<Seq<char>>, ReflectV)>,
    ws: Seq<(Seq<char>, ScriptV)>,
    i: int,
)
    requires
        0 <= i <= s.len(),
        ws.len() == s.len() - i,
        forall|j: int|
            i <= j < s.len() ==> (#[trigger] s[j]).0 is Some && ws[j - i].0 == s[j].0->0
                && js_value_of(s[j].1) == Ok::<ScriptV, ConversionError>(ws[j - i].1),
    ensures
        js_payload_of(s, i) == Ok::<Seq<(Seq<char>, ScriptV)>, ConversionError>(ws),
    decreases s.len() - i,
{
    if i < s.len() {
        let tail = ws.drop_first();
        assert forall|j: int| i + 1 <= j < s.len() implies (#[trigger] s[j]).0 is Some && tail[j - (
        i + 1)].0 == s[j].0->0 && js_value_of(s[j].1) == Ok::<ScriptV, ConversionError>(
            tail[j - (i + 1)].1,
        ) by {
            assert(tail[j - (i + 1)] == ws[j - i]);
            assert(s[j].0 is Some && ws[j - i].0 == s[j].0->0);
        }
        lemma_js_payload_of_all_ok(s, tail, i + 1);
        assert(s[i].0 is Some && ws[i - i].0 == s[i].0->0 && js_value_of(s[i].1) == Ok::<
            ScriptV,
            ConversionError,
        >(ws[i - i].1));
        assert(ws[0] == (s[i].0->0, js_value_of(s[i].1)->Ok_0));
        assert(seq![ws[0]] + tail =~= ws);
    } else {
        assert(ws =~= Seq::<(Seq<char>, ScriptV)>::empty());
    }
}

/// If the payload fields before `k` are named with converting values, and at
/// `k` the name is missing or the value fails, the suffix conversion from `i`
/// fails accordingly.
pub proof fn lemma_js_payload_of_err(
    s: Seq<(Option<Seq<char>>, ReflectV)>,
    i: int,
    k: int,
    e: ConversionError,
)
    requires
        0 <= i <= k < s.len(),
        forall|j: int|
            i <= j < k ==> (#[trigger] s[j]).0 is Some && (js_value_of(s[j].1)) is Ok,
        (s[k].0 is None && e == ConversionError::MissingMetadata) || (s[k].0 is Some && js_value_of(
            s[k].1,
        ) == Err::<ScriptV, ConversionError>(e)),
    ensures
        js_payload_of(s, i) == Err::<Seq<(Seq<char>, ScriptV)>, ConversionError>(e),
    decreases k - i,
{
    if i < k {
        lemma_js_payload_of_err(s, i + 1, k, e);
    }
}

/// Converts the elements of a positional composite in order; the first
/// failure wins.
#[verifier::loop_isolation(false)]
fn convert_elements(items: &Vec<ReflectValue>) -> (r: Result<Vec<ScriptValue>, ConversionError>)
    ensures
        (match r {
            Ok(out) => js_elems_of(reflect_views_from(items@, 0), 0) == Ok::<
                Seq<ScriptV>,
                ConversionError,
            >(script_views_from(out@, 0)),
            Err(e) => js_elems_of(reflect_views_from(items@, 0), 0) == Err::<
                Seq<ScriptV>,
                ConversionError,
            >(e),
        }),
    decreases items@, items@.len(), 0int,
{
    let ghost vs = reflect_views_from(items@, 0);
    proof {
        lemma_reflect_views_from(items@, 0);
    }
    let mut out: Vec<ScriptValue> = Vec::new();
    let mut i: usize = 0;
    while i < items.len()
        invariant
            i <= items.len(),
            out@.len() == i,
            forall|j: int|
                0 <= j < i ==> js_value_of(#[trigger] vs[j]) == Ok::<ScriptV, ConversionError>(
                    out@[j]@,
                ),
        decreases items@.len() - i,
    {
        proof {
            assert(vs[i as int] == reflect_view(items@[i as int]));
        }
        match reflect_to_js_value(&items[i]) {
            Ok(w) => {
                out.push(w);
            },
            Err(e) => {
                proof {
                    lemma_js_elems_of_err(vs, 0, i as int, e);
                }
                return Err(e);
            },
        }
        i += 1;
    }
    proof {
        lemma_script_views_from(out@, 0);
        let ws = script_views_from(out@, 0);
        assert forall|j: int| 0 <= j < vs.len() implies js_value_of(#[trigger] vs[j]) == Ok::<
            ScriptV,
            ConversionError,
        >(ws[j - 0]) by {
            assert(ws[j] == out@[j]@);
        }
        lemma_js_elems_of_all_ok(vs, ws, 0);
    }
    Ok(out)
}

/// A struct becomes a plain object: one property per field, named by the
/// field, valued by the field's conversion, in declaration order.
#[verifier::loop_isolation(false)]
pub fn reflect_to_js_object(fields: &Vec<(String, ReflectValue)>) -> (r: Result<
    ScriptValue,
    ConversionError,
>)
    ensures
        js_result_view(r) == js_object_of(named_views_from(fields@, 0)),
    decreases fields@, fields@.len(), 1int,
{
    let ghost vs = named_views_from(fields@, 0);
    proof {
        lemma_named_views_from(fields@, 0);
    }
    let mut props: Vec<(String, ScriptValue)> = Vec::new();
    let mut i: usize = 0;
    while i < fields.len()
        invariant
            i <= fields.len(),
            props@.len() == i,
            forall|j: int|
                0 <= j < i ==> props@[j].0@ == (#[trigger] vs[j]).0 && js_value_of(vs[j].1)
                    == Ok::<ScriptV, ConversionError>(props@[j].1@),
        decreases fields@.len() - i,
    {
        proof {
            assert(vs[i as int] == (fields@[i as int].0@, reflect_view(fields@[i as int].1)));
        }
        match reflect_to_js_value(&fields[i].1) {
            Ok(w) => {
                let name = fields[i].0.clone();
                props.push((name, w));
            },
            Err(e) => {
                proof {
                    lemma_js_props_of_err(vs, 0, i as int, e);
                }
                return Err(e);
            },
        }
        i += 1;
    }
    proof {
        lemma_prop_views_from(props@, 0);
        let ws = prop_views_from(props@, 0);
        assert forall|j: int| 0 <= j < vs.len() implies ws[j - 0].0 == (#[trigger] vs[j]).0
            && js_value_of(vs[j].1) == Ok::<ScriptV, ConversionError>(ws[j - 0].1) by {
            assert(ws[j] == (props@[j].0@, script_view(props@[j].1)));
        }
        lemma_js_props_of_all_ok(vs, ws, 0);
    }
    Ok(ScriptValue::Object(ScriptObject::Plain(props)))
}

/// A tuple struct becomes an array of its fields in order.
pub fn reflect_tuple_struct_to_js_array(items: &Vec<ReflectValue>) -> (r: Result<
    ScriptValue,
    ConversionError,
>)
    ensures
        js_result_view(r) == js_array_of(reflect_views_from(items@, 0)),
    decreases items@, items@.len(), 1int,
{
    match convert_elements(items) {
        Ok(out) => Ok(ScriptValue::Object(ScriptObject::Array(out))),
        Err(e) => Err(e),
    }
}

/// A tuple becomes an array of its fields in order.
pub fn reflect_tuple_to_js_array(items: &Vec<ReflectValue>) -> (r: Result<
    ScriptValue,
    ConversionError,
>)
    ensures
        js_result_view(r) == js_array_of(reflect_views_from(items@, 0)),
    decreases items@, items@.len(), 1int,
{
    match convert_elements(items) {
        Ok(out) => Ok(ScriptValue::Object(ScriptObject::Array(out))),
        Err(e) => Err(e),
    }
}

/// A list becomes an array of its elements in iteration order.
pub fn reflect_list_to_js_array(items: &Vec<ReflectValue>) -> (r: Result<
    ScriptValue,
    ConversionError,
>)
    ensures
        js_result_view(r) == js_array_of(reflect_views_from(items@, 0)),
    decreases items@, items@.len(), 1int,
{
    match convert_elements(items) {
        Ok(out) => Ok(ScriptValue::Object(ScriptObject::Array(out))),
        Err(e) => Err(e),
    }
}

/// A fixed-length array becomes an array of its elements, indices in order;
/// the declared length is authoritative.
pub fn reflect_array_to_js_array(items: &Vec<ReflectValue>) -> (r: Result<
    ScriptValue,
    ConversionError,
>)
    ensures
        js_result_view(r) == js_array_of(reflect_views_from(items@, 0)),
    decreases items@, items@.len(), 1int,
{
    match convert_elements(items) {
        Ok(out) => Ok(ScriptValue::Object(ScriptObject::Array(out))),
        Err(e) => Err(e),
    }
}

/// A map becomes a scripting map: each key and value converted independently,
/// entries inserted in source order, the key before the value.
#[verifier::loop_isolation(false)]
pub fn reflect_map_to_js_map(entries: &Vec<(ReflectValue, ReflectValue)>) -> (r: Result<
    ScriptValue,
    ConversionError,
>)
    ensures
        js_result_view(r) == js_map_of(entry_views_from(entries@, 0)),
    decreases entries@, entries@.len(), 1int,
{
    let ghost vs = entry_views_from(entries@, 0);
    proof {
        lemma_entry_views_from(entries@, 0);
    }
    let mut pairs: Vec<(ScriptValue, ScriptValue)> = Vec::new();
    let mut i: usize = 0;
    while i < entries.len()
        invariant
            i <= entries.len(),
            pairs@.len() == i,
            forall|j: int|
                0 <= j < i ==> js_value_of((#[trigger] vs[j]).0) == Ok::<ScriptV, ConversionError>(
                    pairs@[j].0@,
                ) && js_value_of(vs[j].1) == Ok::<ScriptV, ConversionError>(pairs@[j].1@),
        decreases entries@.len() - i,
    {
        proof {
            assert(vs[i as int] == (reflect_view(entries@[i as int].0), reflect_view(
                entries@[i as int].1,
            )));
        }
        let key = match reflect_to_js_value(&entries[i].0) {
            Ok(k) => k,
            Err(e) => {
                proof {
                    lemma_js_pairs_of_err(vs, 0, i as int, e);
                }
                return Err(e);
            },
        };
        match reflect_to_js_value(&entries[i].1) {
            Ok(w) => {
                pairs.push((key, w));
            },
            Err(e) => {
                proof {
                    lemma_js_pairs_of_err(vs, 0, i as int, e);
                }
                return Err(e);
            },
        }
        i += 1;
    }
    proof {
        lemma_pair_views_from(pairs@, 0);
        let ws = pair_views_from(pairs@, 0);
        assert forall|j: int| 0 <= j < vs.len() implies js_value_of((#[trigger] vs[j]).0) == Ok::<
            ScriptV,
            ConversionError,
        >(ws[j - 0].0) && js_value_of(vs[j].1) == Ok::<ScriptV, ConversionError>(ws[j - 0].1) by {
            assert(ws[j] == (script_view(pairs@[j].0), script_view(pairs@[j].1)));
        }
        lemma_js_pairs_of_all_ok(vs, ws, 0);
    }
    Ok(ScriptValue::Object(ScriptObject::MapObject(pairs)))
}

/// An enum becomes a plain object: each payload field must be named (a
/// nameless field fails with missing metadata); the reserved variant-marker
/// property is added last, holding the variant name.
#[verifier::loop_isolation(false)]
pub fn reflect_enum_to_js_value(
    variant: &String,
    fields: &Vec<(Option<String>, ReflectValue)>,
) -> (r: Result<ScriptValue, ConversionError>)
    ensures
        js_result_view(r) == js_enum_of(variant@, payload_views_from(fields@, 0)),
    decreases fields@, fields@.len(), 1int,
{
    let ghost vs = payload_views_from(fields@, 0);
    proof {
        lemma_payload_views_from(fields@, 0);
    }
    let mut props: Vec<(String, ScriptValue)> = Vec::new();
    let mut i: usize = 0;
    while i < fields.len()
        invariant
            i <= fields.len(),
            props@.len() == i,
            forall|j: int|
                0 <= j < i ==> (#[trigger] vs[j]).0 is Some && props@[j].0@ == vs[j].0->0
                    && js_value_of(vs[j].1) == Ok::<ScriptV, ConversionError>(props@[j].1@),
        decreases fields@.len() - i,
    {
        proof {
            assert(vs[i as int] == (
                match fields@[i as int].0 {
                    Some(n) => Some(n@),
                    None => None,
                },
                reflect_view(fields@[i as int].1),
            ));
        }
        let name = match &fields[i].0 {
            Some(n) => n.clone(),
            None => {
                proof {
                    lemma_js_payload_of_err(vs, 0, i as int, ConversionError::MissingMetadata);
                }
                return Err(ConversionError::MissingMetadata);
            },
        };
        match reflect_to_js_value(&fields[i].1) {
            Ok(w) => {
                props.push((name, w));
            },
            Err(e) => {
                proof {
                    lemma_js_payload_of_err(vs, 0, i as int, e);
                }
                return Err(e);
            },
        }
        i += 1;
    }
    let marker = variant_key_str().to_owned();
    props.push((marker, ScriptValue::Text(variant.clone())));
    proof {
        lemma_prop_views_from(props@, 0);
        let all = prop_views_from(props@, 0);
        let payload = all.drop_last();
        assert forall|j: int| 0 <= j < vs.len() implies (#[trigger] vs[j]).0 is Some && payload[j
            - 0].0 == vs[j].0->0 && js_value_of(vs[j].1) == Ok::<ScriptV, ConversionError>(
            payload[j - 0].1,
        ) by {
            assert(payload[j] == all[j]);
            assert(all[j] == (props@[j].0@, script_view(props@[j].1)));
        }
        lemma_js_payload_of_all_ok(vs, payload, 0);
        assert(all[vs.len() as int] == (props@[vs.len() as int].0@, script_view(
            props@[vs.len() as int].1,
        )));
        assert(all =~= payload.push((variant_key(), ScriptV::Text(variant@))));
    }
    Ok(ScriptValue::Object(ScriptObject::Plain(props)))
}

/// A primitive goes through the coercion table; an unrecognized primitive
/// becomes null rather than an error.
pub fn primitive_to_js_value(value: &Primitive) -> (r: ScriptValue)
    ensures
        r@ == prim_to_js(value@),
{
    match value {
        Primitive::Bool(b) => ScriptValue::Boolean(*b),
        Primitive::I8(x) => ScriptValue::Integer(*x as i32),
        Primitive::I16(x) => ScriptValue::Integer(*x as i32),
        Primitive::I32(x) => ScriptValue::Integer(*x),
        Primitive::I64(x) => ScriptValue::BigInt(i64_to_decimal(*x)),
        Primitive::ISize(x) => ScriptValue::BigInt(i64_to_decimal(*x as i64)),
        Primitive::U8(x) => ScriptValue::Integer(*x as i32),
        Primitive::U16(x) => ScriptValue::Integer(*x as i32),
        Primitive::U32(x) => ScriptValue::BigInt(u64_to_decimal(*x as u64)),
        Primitive::U64(x) => ScriptValue::BigInt(u64_to_decimal(*x)),
        Primitive::USize(x) => ScriptValue::BigInt(u64_to_decimal(*x as u64)),
        Primitive::Float32(b) => ScriptValue::Rational(*b),
        Primitive::Float64(b) => ScriptValue::Rational(*b),
        Primitive::Text(s) => ScriptValue::Text(s.clone()),
        Primitive::Unit => ScriptValue::Null,
        Primitive::Opaque => ScriptValue::Null,
    }
}

/// The outbound converter: turns a reflective value into the equivalent
/// scripting value, or fails with the first conversion error, leaving no
/// partial result.
pub fn reflect_to_js_value(value: &ReflectValue) -> (r: Result<ScriptValue, ConversionError>)
    ensures
        js_result_view(r) == js_value_of(value@),
    decreases *value, 2int,
{
    match value {
        ReflectValue::Struct(fields) => reflect_to_js_object(fields),
        ReflectValue::TupleStruct(items) => reflect_tuple_struct_to_js_array(items),
        ReflectValue::Tuple(items) => reflect_tuple_to_js_array(items),
        ReflectValue::List(items) => reflect_list_to_js_array(items),
        ReflectValue::Array(items) => reflect_array_to_js_array(items),
        ReflectValue::Mapping(entries) => reflect_map_to_js_map(entries),
        ReflectValue::Enum { variant, fields } => reflect_enum_to_js_value(variant, fields),
        ReflectValue::Value(p) => Ok(primitive_to_js_value(p)),
    }
}

} // verus!
