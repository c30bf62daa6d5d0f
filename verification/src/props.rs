//! Laws of the bridge: properties that relate the two converters, stated
//! over the mathematical models and proved once for all inputs.

use vstd::prelude::*;
use crate::dynamic::{DynPrimV, DynV};
use crate::error::ConversionError;
use crate::from::{
    has_variant_marker, reflect_elems_of, reflect_fields_of, reflect_of, reflect_pairs_of,
};
use crate::into::{js_elems_of, js_payload_of, js_props_of, js_value_of, variant_key};
use crate::script::{ScriptObjV, ScriptV};
use crate::value::{PrimV, ReflectV};

verus! {

broadcast use vstd::std_specs::vec::group_vec_axioms, vstd::seq::group_seq_axioms;

/// Outbound-then-inbound conversion of a boolean, string, or float primitive
/// is stable for the value it denotes. A boolean or string comes back
/// unchanged; a float comes back as a 32-bit float primitive carrying
/// exactly the 64-bit bit pattern that went out, so a value within 32-bit
/// float range is preserved, while the numeric width itself is not.
pub proof fn lemma_primitive_round_trip(p: PrimV)
    requires
        p is Bool || p is Text || p is Float32 || p is Float64,
    ensures
        js_value_of(ReflectV::Value(p)) is Ok,
        reflect_of(js_value_of(ReflectV::Value(p))->Ok_0) is Ok,
        (p matches PrimV::Bool(b) ==> reflect_of(js_value_of(ReflectV::Value(p))->Ok_0)->Ok_0
            == DynV::Value(DynPrimV::Bool(b))),
        (p matches PrimV::Text(s) ==> reflect_of(js_value_of(ReflectV::Value(p))->Ok_0)->Ok_0
            == DynV::Value(DynPrimV::Text(s))),
        (p matches PrimV::Float32(bits) ==> reflect_of(js_value_of(ReflectV::Value(p))->Ok_0)->Ok_0
            == DynV::Value(DynPrimV::Float32OfBits(bits))),
        (p matches PrimV::Float64(bits) ==> reflect_of(js_value_of(ReflectV::Value(p))->Ok_0)->Ok_0
            == DynV::Value(DynPrimV::Float32OfBits(bits))),
{
}

/// Elementwise reading of outbound element conversion: it succeeds exactly
/// when every element converts, and then yields the elements' conversions
/// in order.
pub proof fn lemma_js_elems_of_index(s: Seq<ReflectV>, i: int)
    requires
        0 <= i <= s.len(),
    ensures
        (js_elems_of(s, i) is Ok) <==> (forall|j: int|
            i <= j < s.len() ==> js_value_of(#[trigger] s[j]) is Ok),
        js_elems_of(s, i) is Ok ==> js_elems_of(s, i)->Ok_0.len() == s.len() - i,
        js_elems_of(s, i) is Ok ==> forall|j: int|
            i <= j < s.len() ==> js_elems_of(s, i)->Ok_0[j - i] == js_value_of(
                #[trigger] s[j],
            )->Ok_0,
    decreases s.len() - i,
{
    if i < s.len() {
        lemma_js_elems_of_index(s, i + 1);
    }
}

/// Outbound conversion of a list or fixed-length array succeeds exactly when
/// every element converts; the result is then a scripting array of the same
/// length whose elements are the conversions of the source elements, in the
/// same order. Nested composites are converted in full by the same rule,
/// since each element's conversion is itself the full recursive conversion.
pub proof fn lemma_list_outbound(s: Seq<ReflectV>)
    ensures
        (js_value_of(ReflectV::List(s)) is Ok) <==> (forall|j: int|
            0 <= j < s.len() ==> js_value_of(#[trigger] s[j]) is Ok),
        js_value_of(ReflectV::Array(s)) == js_value_of(ReflectV::List(s)),
        js_value_of(ReflectV::List(s)) is Ok ==> (js_value_of(ReflectV::List(s))->Ok_0 matches
            ScriptV::Object(o) && o matches ScriptObjV::Array(elems) && elems.len() == s.len()
            && (forall|j: int|
            0 <= j < s.len() ==> elems[j] == js_value_of(#[trigger] s[j])->Ok_0)),
{
    lemma_js_elems_of_index(s, 0);
}

/// Elementwise reading of outbound named-field conversion.
pub proof fn lemma_js_props_of_index(s: Seq<(Seq<char>, ReflectV)>, i: int)
    requires
        0 <= i <= s.len(),
    ensures
        (js_props_of(s, i) is Ok) <==> (forall|j: int|
            i <= j < s.len() ==> js_value_of((#[trigger] s[j]).1) is Ok),
        js_props_of(s, i) is Ok ==> js_props_of(s, i)->Ok_0.len() == s.len() - i,
        js_props_of(s, i) is Ok ==> forall|j: int|
            i <= j < s.len() ==> js_props_of(s, i)->Ok_0[j - i] == ((#[trigger] s[j]).0,
            js_value_of(s[j].1)->Ok_0),
    decreases s.len() - i,
{
    if i < s.len() {
        lemma_js_props_of_index(s, i + 1);
    }
}

/// Outbound conversion of a struct succeeds exactly when every field value
/// converts; the result is then a plain object with one property per field,
/// named by the field and holding the field's conversion, whose insertion
/// order is the field declaration order. In particular the own-property
/// name set equals the field name set.
pub proof fn lemma_struct_outbound(fields: Seq<(Seq<char>, ReflectV)>)
    ensures
        (js_value_of(ReflectV::Struct(fields)) is Ok) <==> (forall|j: int|
            0 <= j < fields.len() ==> js_value_of((#[trigger] fields[j]).1) is Ok),
        js_value_of(ReflectV::Struct(fields)) is Ok ==> (js_value_of(
            ReflectV::Struct(fields),
        )->Ok_0 matches ScriptV::Object(o) && o matches ScriptObjV::Plain(props) && props.len()
            == fields.len() && (forall|j: int|
            0 <= j < fields.len() ==> (#[trigger] props[j]) == (fields[j].0, js_value_of(
                fields[j].1,
            )->Ok_0))),
{
    lemma_js_props_of_index(fields, 0);
}

/// Elementwise reading of outbound enum payload conversion: it succeeds
/// exactly when every payload field is named and its value converts.
pub proof fn lemma_js_payload_of_index(s: Seq<(Option<Seq<char>>, ReflectV)>, i: int)
    requires
        0 <= i <= s.len(),
    ensures
        (js_payload_of(s, i) is Ok) <==> (forall|j: int|
            i <= j < s.len() ==> (#[trigger] s[j]).0 is Some && js_value_of(s[j].1) is Ok),
        js_payload_of(s, i) is Ok ==> js_payload_of(s, i)->Ok_0.len() == s.len() - i,
        js_payload_of(s, i) is Ok ==> forall|j: int|
            i <= j < s.len() ==> js_payload_of(s, i)->Ok_0[j - i] == ((#[trigger] s[j]).0->0,
            js_value_of(s[j].1)->Ok_0),
    decreases s.len() - i,
{
    if i < s.len() {
        lemma_js_payload_of_index(s, i + 1);
    }
}

/// Outbound conversion of an enum succeeds exactly when every payload field
/// is named and its value converts; the result is then a plain object
/// holding one property per payload field, in order, followed by one last
/// reserved property holding the variant name as a string.
pub proof fn lemma_enum_outbound(variant: Seq<char>, fields: Seq<(Option<Seq<char>>, ReflectV)>)
    ensures
        ((js_value_of(ReflectV::Enum { variant, fields }) is Ok) <==> (forall|j: int|
            0 <= j < fields.len() ==> (#[trigger] fields[j]).0 is Some && js_value_of(
                fields[j].1,
            ) is Ok)),
        js_value_of(ReflectV::Enum { variant, fields }) is Ok ==> (js_value_of(
            ReflectV::Enum { variant, fields },
        )->Ok_0 matches ScriptV::Object(o) && o matches ScriptObjV::Plain(props) && props.len()
            == fields.len() + 1 && props[fields.len() as int] == (variant_key(), ScriptV::Text(
            variant,
        )) && (forall|j: int|
            0 <= j < fields.len() ==> (#[trigger] props[j]) == (fields[j].0->0, js_value_of(
                fields[j].1,
            )->Ok_0))),
{
    lemma_js_payload_of_index(fields, 0);
}

/// Every inbound conversion failure is an unsupported-value-kind failure:
/// the inbound converter has no other way to fail.
pub proof fn lemma_inbound_err_kind(v: ScriptV)
    ensures
        reflect_of(v) is Err ==> reflect_of(v)->Err_0 == ConversionError::UnsupportedValueKind,
    decreases v, 4int,
{
    match v {
        ScriptV::Object(o) => {
            match o {
                ScriptObjV::Array(items) => lemma_inbound_elems_err_kind(items, 0),
                ScriptObjV::MapObject(entries) => lemma_inbound_pairs_err_kind(entries, 0),
                ScriptObjV::SetObject(items) => lemma_inbound_elems_err_kind(items, 0),
                ScriptObjV::Plain(props) => lemma_inbound_fields_err_kind(props, 0),
            }
        },
        _ => {},
    }
}

/// Element conversion can only fail as unsupported-value-kind.
pub proof fn lemma_inbound_elems_err_kind(s: Seq<ScriptV>, i: int)
    ensures
        reflect_elems_of(s, i) is Err ==> reflect_elems_of(s, i)->Err_0
            == ConversionError::UnsupportedValueKind,
    decreases s, s.len() - i, 1int,
{
    if 0 <= i < s.len() {
        lemma_inbound_err_kind(s[i]);
        lemma_inbound_elems_err_kind(s, i + 1);
    }
}

/// Entry conversion can only fail as unsupported-value-kind.
pub proof fn lemma_inbound_pairs_err_kind(s: Seq<(ScriptV, ScriptV)>, i: int)
    ensures
        reflect_pairs_of(s, i) is Err ==> reflect_pairs_of(s, i)->Err_0
            == ConversionError::UnsupportedValueKind,
    decreases s, s.len() - i, 1int,
{
    if 0 <= i < s.len() {
        lemma_inbound_err_kind(s[i].0);
        lemma_inbound_err_kind(s[i].1);
        lemma_inbound_pairs_err_kind(s, i + 1);
    }
}

/// Property conversion can only fail as unsupported-value-kind.
pub proof fn lemma_inbound_fields_err_kind(s: Seq<(Seq<char>, ScriptV)>, i: int)
    ensures
        reflect_fields_of(s, i) is Err ==> reflect_fields_of(s, i)->Err_0
            == ConversionError::UnsupportedValueKind,
    decreases s, s.len() - i, 1int,
{
    if 0 <= i < s.len() {
        lemma_inbound_err_kind(s[i].1);
        lemma_inbound_fields_err_kind(s, i + 1);
    }
}

/// Inbound conversion of a plain object carrying a non-null variant marker
/// fails with an unsupported-value-kind error, whatever other properties the
/// object has.
pub proof fn lemma_variant_marker_rejected(props: Seq<(Seq<char>, ScriptV)>)
    requires
        has_variant_marker(props),
    ensures
        reflect_of(ScriptV::Object(ScriptObjV::Plain(props))) == Err::<DynV, ConversionError>(
            ConversionError::UnsupportedValueKind,
        ),
{
    lemma_inbound_fields_err_kind(props, 0);
}

/// Inbound conversion of a symbol fails with an unsupported-value-kind error.
pub proof fn lemma_symbol_rejected()
    ensures
        reflect_of(ScriptV::Symbol) == Err::<DynV, ConversionError>(
            ConversionError::UnsupportedValueKind,
        ),
{
}

/// Inbound conversion of a big integer yields a reflective string primitive
/// holding exactly the big integer's decimal text.
pub proof fn lemma_bigint_inbound(s: Seq<char>)
    ensures
        reflect_of(ScriptV::BigInt(s)) == Ok::<DynV, ConversionError>(
            DynV::Value(DynPrimV::Text(s)),
        ),
{
}

/// Outbound conversion of a primitive of an unrecognized type, or of the
/// host's unit value, yields scripting null, not an error.
pub proof fn lemma_unrecognized_primitive_to_null()
    ensures
        js_value_of(ReflectV::Value(PrimV::Opaque)) == Ok::<ScriptV, ConversionError>(
            ScriptV::Null,
        ),
        js_value_of(ReflectV::Value(PrimV::Unit)) == Ok::<ScriptV, ConversionError>(ScriptV::Null),
{
}

} // verus!
