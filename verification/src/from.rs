//! The inbound converter: scripting value to dynamic reflective value.
//!
//! Dispatch is on the scripting value's runtime tag. Numbers normalize to
//! the host's 32-bit float type, big integers to their decimal text, and
//! symbols are rejected. An object converts by its concrete kind: an array
//! or set to a dynamic list, a map to a dynamic map, and a plain object to
//! a dynamic struct — unless it carries a non-null variant marker, which is
//! rejected: the enum encoding is write-only.

use vstd::prelude::*;
use vstd::string::StringExecFns;
use crate::dynamic::{
    dyn_field_views_from, dyn_entry_views_from, dyn_view, dyn_views_from, lemma_dyn_entry_views_from,
    lemma_dyn_field_views_from, lemma_dyn_views_from, DynPrimV, DynPrimitive, DynV, DynValue,
};
use crate::error::ConversionError;
use crate::into::{variant_key, variant_key_str};
use crate::script::{
    lemma_pair_views_from, lemma_prop_views_from, lemma_script_views_from, pair_views_from,
    prop_views_from, script_view, script_views_from, ScriptObjV, ScriptObject, ScriptV, ScriptValue,
};

verus! {

broadcast use vstd::std_specs::vec::group_vec_axioms, vstd::seq::group_seq_axioms;

/// Whether a plain object's properties carry a non-null, non-undefined value
/// under the reserved variant-marker name.
pub open spec fn has_variant_marker(props: Seq<(Seq<char>, ScriptV)>) -> bool {
    exists|n: int|
        0 <= n < props.len() && (#[trigger] props[n]).0 == variant_key() && !(props[n].1 is Null
            || props[n].1 is Undefined)
}

/// Inbound conversion of the elements of `s` from index `i` on: the first
/// failure wins, else the converted elements in order.
pub open spec fn reflect_elems_of(s: Seq<ScriptV>, i: int) -> Result<Seq<DynV>, ConversionError>
    decreases s, s.len() - i, 0int,
{
    if i < 0 || i >= s.len() {
        Ok(Seq::empty())
    } else {
        match reflect_of(s[i]) {
            Ok(v) => match reflect_elems_of(s, i + 1) {
                Ok(rest) => Ok(seq![v] + rest),
                Err(e) => Err(e),
            },
            Err(e) => Err(e),
        }
    }
}

/// Inbound conversion of map entries from index `i` on: the key is converted
/// before the value.
pub open spec fn reflect_pairs_of(s: Seq<(ScriptV, ScriptV)>, i: int) -> Result<
    Seq<(DynV, DynV)>,
    ConversionError,
>
    decreases s, s.len() - i, 0int,
{
    if i < 0 || i >= s.len() {
        Ok(Seq::empty())
    } else {
        match reflect_of(s[i].0) {
            Ok(k) => match reflect_of(s[i].1) {
                Ok(v) => match reflect_pairs_of(s, i + 1) {
                    Ok(rest) => Ok(seq![(k, v)] + rest),
                    Err(e) => Err(e),
                },
                Err(e) => Err(e),
            },
            Err(e) => Err(e),
        }
    }
}

/// Inbound conversion of a plain object's properties from index `i` on: each
/// property key becomes a field name, its value converted.
pub open spec fn reflect_fields_of(s: Seq<(Seq<char>, ScriptV)>, i: int) -> Result<
    Seq<(Seq<char>, DynV)>,
    ConversionError,
>
    decreases s, s.len() - i, 0int,
{
    if i < 0 || i >= s.len() {
        Ok(Seq::empty())
    } else {
        match reflect_of(s[i].1) {
            Ok(v) => match reflect_fields_of(s, i + 1) {
                Ok(rest) => Ok(seq![(s[i].0, v)] + rest),
                Err(e) => Err(e),
            },
            Err(e) => Err(e),
        }
    }
}

/// Inbound conversion of an array or set: a dynamic list of its members.
pub open spec fn list_reflect_of(s: Seq<ScriptV>) -> Result<DynV, ConversionError>
    decreases s, s.len(), 1int,
{
    match reflect_elems_of(s, 0) {
        Ok(elems) => Ok(DynV::List(elems)),
        Err(e) => Err(e),
    }
}

/// Inbound conversion of a map: a dynamic map of its converted entries.
pub open spec fn map_reflect_of(s: Seq<(ScriptV, ScriptV)>) -> Result<DynV, ConversionError>
    decreases s, s.len(), 1int,
{
    match reflect_pairs_of(s, 0) {
        Ok(pairs) => Ok(DynV::Mapping(pairs)),
        Err(e) => Err(e),
    }
}

/// Inbound conversion of a plain object: a dynamic struct, one field per own
/// property — after the fields convert, an object carrying a non-null
/// variant marker is rejected, since enum decoding is unsupported.
pub open spec fn struct_reflect_of(props: Seq<(Seq<char>, ScriptV)>) -> Result<
    DynV,
    ConversionError,
>
    decreases props, props.len(), 1int,
{
    match reflect_fields_of(props, 0) {
        Ok(fields) => if has_variant_marker(props) {
            Err(ConversionError::UnsupportedValueKind)
        } else {
            Ok(DynV::Struct(fields))
        },
        Err(e) => Err(e),
    }
}

/// Inbound conversion of an object, by its concrete kind.
pub open spec fn object_reflect_of(o: ScriptObjV) -> Result<DynV, ConversionError>
    decreases o, 2int,
{
    match o {
        ScriptObjV::Array(items) => list_reflect_of(items),
        ScriptObjV::MapObject(entries) => map_reflect_of(entries),
        ScriptObjV::SetObject(items) => list_reflect_of(items),
        ScriptObjV::Plain(props) => struct_reflect_of(props),
    }
}

/// The inbound conversion of a scripting value, by runtime tag.
pub open spec fn reflect_of(v: ScriptV) -> Result<DynV, ConversionError>
    decreases v, 3int,
{
    match v {
        ScriptV::Null => Ok(DynV::Value(DynPrimV::Unit)),
        ScriptV::Undefined => Ok(DynV::Value(DynPrimV::Unit)),
        ScriptV::Boolean(b) => Ok(DynV::Value(DynPrimV::Bool(b))),
        ScriptV::Integer(i) => Ok(DynV::Value(DynPrimV::Float32OfInt(i))),
        ScriptV::Rational(bits) => Ok(DynV::Value(DynPrimV::Float32OfBits(bits))),
        ScriptV::Text(s) => Ok(DynV::Value(DynPrimV::Text(s))),
        ScriptV::BigInt(s) => Ok(DynV::Value(DynPrimV::Text(s))),
        ScriptV::Symbol => Err(ConversionError::UnsupportedValueKind),
        ScriptV::Object(o) => object_reflect_of(o),
    }
}

/// The model of an inbound conversion result.
pub open spec fn dyn_result_view(r: Result<DynValue, ConversionError>) -> Result<
    DynV,
    ConversionError,
> {
    match r {
        Ok(v) => Ok(v@),
        Err(e) => Err(e),
    }
}

/// If every element from `i` on converts, the suffix conversion returns
/// exactly those results in order.
pub proof fn lemma_reflect_elems_of_all_ok(s: Seq<ScriptV>, ws: Seq<DynV>, i: int)
    requires
        0 <= i <= s.len(),
        ws.len() == s.len() - i,
        forall|j: int|
            i <= j < s.len() ==> reflect_of(#[trigger] s[j]) == Ok::<DynV, ConversionError>(
                ws[j - i],
            ),
    ensures
        reflect_elems_of(s, i) == Ok::<Seq<DynV>, ConversionError>(ws),
    decreases s.len() - i,
{
    if i < s.len() {
        let tail = ws.drop_first();
        assert forall|j: int| i + 1 <= j < s.len() implies reflect_of(#[trigger] s[j]) == Ok::<
            DynV,
            ConversionError,
        >(tail[j - (i + 1)]) by {
            assert(tail[j - (i + 1)] == ws[j - i]);
        }
        lemma_reflect_elems_of_all_ok(s, tail, i + 1);
        assert(reflect_of(s[i]) == Ok::<DynV, ConversionError>(ws[i - i]));
        assert(seq![ws[0]] + tail =~= ws);
    } else {
        assert(ws =~= Seq::<DynV>::empty());
    }
}

/// If the elements before `k` convert and the one at `k` fails, the suffix
/// conversion from `i` fails with that error.
pub proof fn lemma_reflect_elems_of_err(s: Seq<ScriptV>, i: int, k: int, e: ConversionError)
    requires
        0 <= i <= k < s.len(),
        forall|j: int| i <= j < k ==> (reflect_of(#[trigger] s[j])) is Ok,
        reflect_of(s[k]) == Err::<DynV, ConversionError>(e),
    ensures
        reflect_elems_of(s, i) == Err::<Seq<DynV>, ConversionError>(e),
    decreases k - i,
{
    if i < k {
        lemma_reflect_elems_of_err(s, i + 1, k, e);
    }
}

/// If every entry from `i` on converts, the suffix conversion returns the
/// converted pairs in order.
pub proof fn lemma_reflect_pairs_of_all_ok(s: Seq<(ScriptV, ScriptV)>, ws: Seq<(DynV, DynV)>, i: int)
    requires
        0 <= i <= s.len(),
        ws.len() == s.len() - i,
        forall|j: int|
            i <= j < s.len() ==> reflect_of((#[trigger] s[j]).0) == Ok::<DynV, ConversionError>(
                ws[j - i].0,
            ) && reflect_of(s[j].1) == Ok::<DynV, ConversionError>(ws[j - i].1),
    ensures
        reflect_pairs_of(s, i) == Ok::<Seq<(DynV, DynV)>, ConversionError>(ws),
    decreases s.len() - i,
{
    if i < s.len() {
        let tail = ws.drop_first();
        assert forall|j: int| i + 1 <= j < s.len() implies reflect_of((#[trigger] s[j]).0) == Ok::<
            DynV,
            ConversionError,
        >(tail[j - (i + 1)].0) && reflect_of(s[j].1) == Ok::<DynV, ConversionError>(
            tail[j - (i + 1)].1,
        ) by {
            assert(tail[j - (i + 1)] == ws[j - i]);
            assert(reflect_of(s[j].0) == Ok::<DynV, ConversionError>(ws[j - i].0));
        }
        lemma_reflect_pairs_of_all_ok(s, tail, i + 1);
        assert(reflect_of(s[i].0) == Ok::<DynV, ConversionError>(ws[i - i].0) && reflect_of(s[i].1)
            == Ok::<DynV, ConversionError>(ws[i - i].1));
        assert(ws[0] == (reflect_of(s[i].0)->Ok_0, reflect_of(s[i].1)->Ok_0));
        assert(seq![ws[0]] + tail =~= ws);
    } else {
        assert(ws =~= Seq::<(DynV, DynV)>::empty());
    }
}

/// If the entries before `k` convert and at `k` the key or the value fails,
/// the suffix conversion from `i` fails with that error.
pub proof fn lemma_reflect_pairs_of_err(s: Seq<(ScriptV, ScriptV)>, i: int, k: int, e: ConversionError)
    requires
        0 <= i <= k < s.len(),
        forall|j: int|
            i <= j < k ==> (reflect_of((#[trigger] s[j]).0)) is Ok && (reflect_of(s[j].1)) is Ok,
        reflect_of(s[k].0) == Err::<DynV, ConversionError>(e) || (reflect_of(s[k].0) is Ok
            && reflect_of(s[k].1) == Err::<DynV, ConversionError>(e)),
    ensures
        reflect_pairs_of(s, i) == Err::<Seq<(DynV, DynV)>, ConversionError>(e),
    decreases k - i,
{
    if i < k {
        lemma_reflect_pairs_of_err(s, i + 1, k, e);
    }
}

/// If every property value from `i` on converts, the suffix conversion
/// returns the named results in order.
pub proof fn lemma_reflect_fields_of_all_ok(
    s: Seq<(Seq<char>, ScriptV)>,
    ws: Seq<(Seq<char>, DynV)>,
    i: int,
)
    requires
        0 <= i <= s.len(),
        ws.len() == s.len() - i,
        forall|j: int|
            i <= j < s.len() ==> ws[j - i].0 == (#[trigger] s[j]).0 && reflect_of(s[j].1)
                == Ok::<DynV, ConversionError>(ws[j - i].1),
    ensures
        reflect_fields_of(s, i) == Ok::<Seq<(Seq<char>, DynV)>, ConversionError>(ws),
    decreases s.len() - i,
{
    if i < s.len() {
        let tail = ws.drop_first();
        assert forall|j: int| i + 1 <= j < s.len() implies tail[j - (i + 1)].0 == (
        #[trigger] s[j]).0 && reflect_of(s[j].1) == Ok::<DynV, ConversionError>(
            tail[j - (i + 1)].1,
        ) by {
            assert(tail[j - (i + 1)] == ws[j - i]);
            assert(ws[j - i].0 == s[j].0);
        }
        lemma_reflect_fields_of_all_ok(s, tail, i + 1);
        assert(ws[i - i].0 == s[i].0 && reflect_of(s[i].1) == Ok::<DynV, ConversionError>(
            ws[i - i].1,
        ));
        assert(ws[0] == (s[i].0, reflect_of(s[i].1)->Ok_0));
        assert(seq![ws[0]] + tail =~= ws);
    } else {
        assert(ws =~= Seq::<(Seq<char>, DynV)>::empty());
    }
}

/// If the property values before `k` convert and the one at `k` fails, the
/// suffix conversion from `i` fails with that error.
pub proof fn lemma_reflect_fields_of_err(
    s: Seq<(Seq<char>, ScriptV)>,
    i: int,
    k: int,
    e: ConversionError,
)
    requires
        0 <= i <= k < s.len(),
        forall|j: int| i <= j < k ==> (reflect_of((#[trigger] s[j]).1)) is Ok,
        reflect_of(s[k].1) == Err::<DynV, ConversionError>(e),
    ensures
        reflect_fields_of(s, i) == Err::<Seq<(Seq<char>, DynV)>, ConversionError>(e),
    decreases k - i,
{
    if i < k {
        lemma_reflect_fields_of_err(s, i + 1, k, e);
    }
}

/// Converts the members of an array or set in order; the first failure wins.
#[verifier::loop_isolation(false)]
fn convert_script_elements(items: &Vec<ScriptValue>) -> (r: Result<Vec<DynValue>, ConversionError>)
    ensures
        (match r {
            Ok(out) => reflect_elems_of(script_views_from(items@, 0), 0) == Ok::<
                Seq<DynV>,
                ConversionError,
            >(dyn_views_from(out@, 0)),
            Err(e) => reflect_elems_of(script_views_from(items@, 0), 0) == Err::<
                Seq<DynV>,
                ConversionError,
            >(e),
        }),
    decreases items@, items@.len(), 0int,
{
    let ghost vs = script_views_from(items@, 0);
    proof {
        lemma_script_views_from(items@, 0);
    }
    let mut out: Vec<DynValue> = Vec::new();
    let mut i: usize = 0;
    while i < items.len()
        invariant
            i <= items.len(),
            out@.len() == i,
            forall|j: int|
                0 <= j < i ==> reflect_of(#[trigger] vs[j]) == Ok::<DynV, ConversionError>(
                    out@[j]@,
                ),
        decreases items@.len() - i,
    {
        proof {
            assert(vs[i as int] == script_view(items@[i as int]));
        }
        match js_value_to_reflect(&items[i]) {
            Ok(w) => {
                out.push(w);
            },
            Err(e) => {
                proof {
                    lemma_reflect_elems_of_err(vs, 0, i as int, e);
                }
                return Err(e);
            },
        }
        i += 1;
    }
    proof {
        lemma_dyn_views_from(out@, 0);
        let ws = dyn_views_from(out@, 0);
        assert forall|j: int| 0 <= j < vs.len() implies reflect_of(#[trigger] vs[j]) == Ok::<
            DynV,
            ConversionError,
        >(ws[j - 0]) by {
            assert(ws[j] == out@[j]@);
        }
        lemma_reflect_elems_of_all_ok(vs, ws, 0);
    }
    Ok(out)
}

/// An array becomes a dynamic list: each indexed element converted in order.
pub fn js_array_to_reflect(items: &Vec<ScriptValue>) -> (r: Result<DynValue, ConversionError>)
    ensures
        dyn_result_view(r) == list_reflect_of(script_views_from(items@, 0)),
    decreases items@, items@.len(), 1int,
{
    match convert_script_elements(items) {
        Ok(out) => Ok(DynValue::List(out)),
        Err(e) => Err(e),
    }
}

/// A set becomes a dynamic list: its members, in iteration order, become
/// list elements.
pub fn js_set_to_reflect(items: &Vec<ScriptValue>) -> (r: Result<DynValue, ConversionError>)
    ensures
        dyn_result_view(r) == list_reflect_of(script_views_from(items@, 0)),
    decreases items@, items@.len(), 1int,
{
    match convert_script_elements(items) {
        Ok(out) => Ok(DynValue::List(out)),
        Err(e) => Err(e),
    }
}

/// A map becomes a dynamic map: each entry's key and value converted, the
/// key first, entries in iteration order.
#[verifier::loop_isolation(false)]
pub fn js_map_to_reflect(entries: &Vec<(ScriptValue, ScriptValue)>) -> (r: Result<
    DynValue,
    ConversionError,
>)
    ensures
        dyn_result_view(r) == map_reflect_of(pair_views_from(entries@, 0)),
    decreases entries@, entries@.len(), 1int,
{
    let ghost vs = pair_views_from(entries@, 0);
    proof {
        lemma_pair_views_from(entries@, 0);
    }
    let mut pairs: Vec<(DynValue, DynValue)> = Vec::new();
    let mut i: usize = 0;
    while i < entries.len()
        invariant
            i <= entries.len(),
            pairs@.len() == i,
            forall|j: int|
                0 <= j < i ==> reflect_of((#[trigger] vs[j]).0) == Ok::<DynV, ConversionError>(
                    pairs@[j].0@,
                ) && reflect_of(vs[j].1) == Ok::<DynV, ConversionError>(pairs@[j].1@),
        decreases entries@.len() - i,
    {
        proof {
            assert(vs[i as int] == (script_view(entries@[i as int].0), script_view(
                entries@[i as int].1,
            )));
        }
        let key = match js_value_to_reflect(&entries[i].0) {
            Ok(k) => k,
            Err(e) => {
                proof {
                    lemma_reflect_pairs_of_err(vs, 0, i as int, e);
                }
                return Err(e);
            },
        };
        match js_value_to_reflect(&entries[i].1) {
            Ok(w) => {
                pairs.push((key, w));
            },
            Err(e) => {
                proof {
                    lemma_reflect_pairs_of_err(vs, 0, i as int, e);
                }
                return Err(e);
            },
        }
        i += 1;
    }
    proof {
        lemma_dyn_entry_views_from(pairs@, 0);
        let ws = dyn_entry_views_from(pairs@, 0);
        assert forall|j: int| 0 <= j < vs.len() implies reflect_of((#[trigger] vs[j]).0) == Ok::<
            DynV,
            ConversionError,
        >(ws[j - 0].0) && reflect_of(vs[j].1) == Ok::<DynV, ConversionError>(ws[j - 0].1) by {
            assert(ws[j] == (dyn_view(pairs@[j].0), dyn_view(pairs@[j].1)));
        }
        lemma_reflect_pairs_of_all_ok(vs, ws, 0);
    }
    Ok(DynValue::Mapping(pairs))
}

/// A plain object becomes a dynamic struct: one field per own property, in
/// key order; then an object carrying a non-null variant marker is rejected,
/// since the enum encoding cannot be read back.
#[verifier::loop_isolation(false)]
pub fn js_object_to_reflect(props: &Vec<(String, ScriptValue)>) -> (r: Result<
    DynValue,
    ConversionError,
>)
    ensures
        dyn_result_view(r) == struct_reflect_of(prop_views_from(props@, 0)),
    decreases props@, props@.len(), 1int,
{
    let ghost vs = prop_views_from(props@, 0);
    proof {
        lemma_prop_views_from(props@, 0);
    }
    let mut fields: Vec<(String, DynValue)> = Vec::new();
    let mut i: usize = 0;
    while i < props.len()
        invariant
            i <= props.len(),
            fields@.len() == i,
            forall|j: int|
                0 <= j < i ==> fields@[j].0@ == (#[trigger] vs[j]).0 && reflect_of(vs[j].1)
                    == Ok::<DynV, ConversionError>(fields@[j].1@),
        decreases props@.len() - i,
    {
        proof {
            assert(vs[i as int] == (props@[i as int].0@, script_view(props@[i as int].1)));
        }
        match js_value_to_reflect(&props[i].1) {
            Ok(w) => {
                let name = props[i].0.clone();
                fields.push((name, w));
            },
            Err(e) => {
                proof {
                    lemma_reflect_fields_of_err(vs, 0, i as int, e);
                }
                return Err(e);
            },
        }
        i += 1;
    }
    proof {
        lemma_dyn_field_views_from(fields@, 0);
        let ws = dyn_field_views_from(fields@, 0);
        assert forall|j: int| 0 <= j < vs.len() implies ws[j - 0].0 == (#[trigger] vs[j]).0
            && reflect_of(vs[j].1) == Ok::<DynV, ConversionError>(ws[j - 0].1) by {
            assert(ws[j] == (fields@[j].0@, dyn_view(fields@[j].1)));
        }
        lemma_reflect_fields_of_all_ok(vs, ws, 0);
    }
    let marker = variant_key_str().to_owned();
    let mut k: usize = 0;
    while k < props.len()
        invariant
            k <= props.len(),
            marker@ == variant_key(),
            forall|j: int|
                0 <= j < k ==> !((#[trigger] vs[j]).0 == variant_key() && !(vs[j].1 is Null
                    || vs[j].1 is Undefined)),
        decreases props@.len() - k,
    {
        proof {
            assert(vs[k as int] == (props@[k as int].0@, script_view(props@[k as int].1)));
        }
        let value_absent = matches!(props[k].1, ScriptValue::Null | ScriptValue::Undefined);
        if props[k].0 == marker && !value_absent {
            proof {
                assert(vs[k as int].0 == variant_key() && !(vs[k as int].1 is Null
                    || vs[k as int].1 is Undefined));
                assert(has_variant_marker(vs));
            }
            return Err(ConversionError::UnsupportedValueKind);
        }
        k += 1;
    }
    proof {
        assert(!has_variant_marker(vs));
    }
    Ok(DynValue::Struct(fields))
}

/// The inbound converter: turns a scripting value into an equivalent dynamic
/// reflective value, or fails with the first conversion error, leaving no
/// partial result.
pub fn js_value_to_reflect(value: &ScriptValue) -> (r: Result<DynValue, ConversionError>)
    ensures
        dyn_result_view(r) == reflect_of(value@),
    decreases *value, 3int,
{
    match value {
        ScriptValue::Null => Ok(DynValue::Value(DynPrimitive::Unit)),
        ScriptValue::Undefined => Ok(DynValue::Value(DynPrimitive::Unit)),
        ScriptValue::Boolean(b) => Ok(DynValue::Value(DynPrimitive::Bool(*b))),
        ScriptValue::Integer(i) => Ok(DynValue::Value(DynPrimitive::Float32OfInt(*i))),
        ScriptValue::Rational(bits) => Ok(DynValue::Value(DynPrimitive::Float32OfBits(*bits))),
        ScriptValue::Text(s) => Ok(DynValue::Value(DynPrimitive::Text(s.clone()))),
        ScriptValue::BigInt(s) => Ok(DynValue::Value(DynPrimitive::Text(s.clone()))),
        ScriptValue::Symbol => Err(ConversionError::UnsupportedValueKind),
        ScriptValue::Object(o) => match o {
            ScriptObject::Array(items) => js_array_to_reflect(items),
            ScriptObject::MapObject(entries) => js_map_to_reflect(entries),
            ScriptObject::SetObject(items) => js_set_to_reflect(items),
            ScriptObject::Plain(props) => js_object_to_reflect(props),
        },
    }
}

} // verus!
