//! Behavioral tests for the two converters, on concrete values.

use js_bridge::{
    js_value_to_reflect, reflect_to_js_value, ConversionError, DynPrimitive, DynValue, Primitive,
    ReflectValue, ScriptObject, ScriptValue,
};

fn prim(p: Primitive) -> ReflectValue {
    ReflectValue::Value(p)
}

#[test]
fn bool_round_trip() {
    let out = reflect_to_js_value(&prim(Primitive::Bool(true))).unwrap();
    assert_eq!(out, ScriptValue::Boolean(true));
    let back = js_value_to_reflect(&out).unwrap();
    assert_eq!(back, DynValue::Value(DynPrimitive::Bool(true)));
}

#[test]
fn string_round_trip() {
    let out = reflect_to_js_value(&prim(Primitive::Text("hello".to_string()))).unwrap();
    assert_eq!(out, ScriptValue::Text("hello".to_string()));
    let back = js_value_to_reflect(&out).unwrap();
    assert_eq!(back, DynValue::Value(DynPrimitive::Text("hello".to_string())));
}

#[test]
fn f32_round_trip_preserves_value() {
    let x: f32 = 1.75;
    let bits = (x as f64).to_bits();
    let out = reflect_to_js_value(&prim(Primitive::Float32(bits))).unwrap();
    assert_eq!(out, ScriptValue::Rational(bits));
    let back = js_value_to_reflect(&out).unwrap();
    assert_eq!(back, DynValue::Value(DynPrimitive::Float32OfBits(bits)));
    // Materializing the dynamic primitive narrows the held bits back to the
    // exact 32-bit value that went out.
    assert_eq!(f64::from_bits(bits) as f32, x);
}

#[test]
fn f64_round_trip_preserves_bits() {
    let x: f64 = 2.5;
    let bits = x.to_bits();
    let out = reflect_to_js_value(&prim(Primitive::Float64(bits))).unwrap();
    assert_eq!(out, ScriptValue::Rational(bits));
    let back = js_value_to_reflect(&out).unwrap();
    assert_eq!(back, DynValue::Value(DynPrimitive::Float32OfBits(bits)));
}

#[test]
fn i32_round_trip_changes_width_not_value() {
    let out = reflect_to_js_value(&prim(Primitive::I32(41))).unwrap();
    assert_eq!(out, ScriptValue::Integer(41));
    let back = js_value_to_reflect(&out).unwrap();
    assert_eq!(back, DynValue::Value(DynPrimitive::Float32OfInt(41)));
    assert_eq!(41i32 as f32, 41.0f32);
}

#[test]
fn coercion_table_integers() {
    assert_eq!(reflect_to_js_value(&prim(Primitive::I8(-5))).unwrap(), ScriptValue::Integer(-5));
    assert_eq!(reflect_to_js_value(&prim(Primitive::I16(300))).unwrap(), ScriptValue::Integer(300));
    assert_eq!(reflect_to_js_value(&prim(Primitive::U8(200))).unwrap(), ScriptValue::Integer(200));
    assert_eq!(
        reflect_to_js_value(&prim(Primitive::U16(65535))).unwrap(),
        ScriptValue::Integer(65535)
    );
    assert_eq!(
        reflect_to_js_value(&prim(Primitive::I64(42))).unwrap(),
        ScriptValue::BigInt("42".to_string())
    );
    assert_eq!(
        reflect_to_js_value(&prim(Primitive::I64(-7))).unwrap(),
        ScriptValue::BigInt("-7".to_string())
    );
    assert_eq!(
        reflect_to_js_value(&prim(Primitive::ISize(-12))).unwrap(),
        ScriptValue::BigInt("-12".to_string())
    );
    assert_eq!(
        reflect_to_js_value(&prim(Primitive::U32(7))).unwrap(),
        ScriptValue::BigInt("7".to_string())
    );
    assert_eq!(
        reflect_to_js_value(&prim(Primitive::U64(18446744073709551615))).unwrap(),
        ScriptValue::BigInt("18446744073709551615".to_string())
    );
    assert_eq!(
        reflect_to_js_value(&prim(Primitive::USize(9000))).unwrap(),
        ScriptValue::BigInt("9000".to_string())
    );
}

#[test]
fn unrecognized_primitive_becomes_null() {
    assert_eq!(reflect_to_js_value(&prim(Primitive::Opaque)).unwrap(), ScriptValue::Null);
    assert_eq!(reflect_to_js_value(&prim(Primitive::Unit)).unwrap(), ScriptValue::Null);
}

#[test]
fn list_outbound_keeps_length_and_order() {
    let v = ReflectValue::List(vec![
        prim(Primitive::I32(1)),
        prim(Primitive::I32(2)),
        prim(Primitive::I32(3)),
    ]);
    let out = reflect_to_js_value(&v).unwrap();
    assert_eq!(
        out,
        ScriptValue::Object(ScriptObject::Array(vec![
            ScriptValue::Integer(1),
            ScriptValue::Integer(2),
            ScriptValue::Integer(3),
        ]))
    );
}

#[test]
fn empty_list_outbound() {
    let out = reflect_to_js_value(&ReflectValue::List(vec![])).unwrap();
    assert_eq!(out, ScriptValue::Object(ScriptObject::Array(vec![])));
}

#[test]
fn nested_composites_convert_recursively() {
    let v = ReflectValue::Array(vec![
        ReflectValue::List(vec![prim(Primitive::Bool(false))]),
        ReflectValue::Tuple(vec![prim(Primitive::I32(9))]),
    ]);
    let out = reflect_to_js_value(&v).unwrap();
    assert_eq!(
        out,
        ScriptValue::Object(ScriptObject::Array(vec![
            ScriptValue::Object(ScriptObject::Array(vec![ScriptValue::Boolean(false)])),
            ScriptValue::Object(ScriptObject::Array(vec![ScriptValue::Integer(9)])),
        ]))
    );
}

#[test]
fn tuple_struct_outbound_is_array() {
    let v = ReflectValue::TupleStruct(vec![prim(Primitive::I32(1)), prim(Primitive::Bool(true))]);
    let out = reflect_to_js_value(&v).unwrap();
    assert_eq!(
        out,
        ScriptValue::Object(ScriptObject::Array(vec![
            ScriptValue::Integer(1),
            ScriptValue::Boolean(true),
        ]))
    );
}

#[test]
fn struct_outbound_keeps_field_names_and_order() {
    let v = ReflectValue::Struct(vec![
        ("first".to_string(), prim(Primitive::I32(10))),
        ("second".to_string(), prim(Primitive::Text("s".to_string()))),
    ]);
    let out = reflect_to_js_value(&v).unwrap();
    assert_eq!(
        out,
        ScriptValue::Object(ScriptObject::Plain(vec![
            ("first".to_string(), ScriptValue::Integer(10)),
            ("second".to_string(), ScriptValue::Text("s".to_string())),
        ]))
    );
}

#[test]
fn empty_struct_outbound() {
    let out = reflect_to_js_value(&ReflectValue::Struct(vec![])).unwrap();
    assert_eq!(out, ScriptValue::Object(ScriptObject::Plain(vec![])));
}

#[test]
fn enum_outbound_encodes_variant_marker_last() {
    let v = ReflectValue::Enum {
        variant: "Foo".to_string(),
        fields: vec![(Some("x".to_string()), prim(Primitive::I32(5)))],
    };
    let out = reflect_to_js_value(&v).unwrap();
    assert_eq!(
        out,
        ScriptValue::Object(ScriptObject::Plain(vec![
            ("x".to_string(), ScriptValue::Integer(5)),
            ("__variant".to_string(), ScriptValue::Text("Foo".to_string())),
        ]))
    );
}

#[test]
fn enum_with_unnamed_field_fails_with_missing_metadata() {
    let v = ReflectValue::Enum {
        variant: "Bar".to_string(),
        fields: vec![(None, prim(Primitive::I32(5)))],
    };
    assert_eq!(reflect_to_js_value(&v), Err(ConversionError::MissingMetadata));
}

#[test]
fn error_propagates_from_nested_field() {
    // The nested enum payload has no field name, so the whole struct
    // conversion fails with that error and no partial result.
    let v = ReflectValue::Struct(vec![(
        "inner".to_string(),
        ReflectValue::Enum { variant: "V".to_string(), fields: vec![(None, prim(Primitive::Unit))] },
    )]);
    assert_eq!(reflect_to_js_value(&v), Err(ConversionError::MissingMetadata));
}

#[test]
fn symbol_inbound_fails_unsupported() {
    assert_eq!(
        js_value_to_reflect(&ScriptValue::Symbol),
        Err(ConversionError::UnsupportedValueKind)
    );
}

#[test]
fn null_and_undefined_inbound_become_unit() {
    assert_eq!(
        js_value_to_reflect(&ScriptValue::Null).unwrap(),
        DynValue::Value(DynPrimitive::Unit)
    );
    assert_eq!(
        js_value_to_reflect(&ScriptValue::Undefined).unwrap(),
        DynValue::Value(DynPrimitive::Unit)
    );
}

#[test]
fn bigint_inbound_keeps_exact_decimal_text() {
    let big = "123456789012345678901234567890".to_string();
    let back = js_value_to_reflect(&ScriptValue::BigInt(big.clone())).unwrap();
    assert_eq!(back, DynValue::Value(DynPrimitive::Text(big)));
}

#[test]
fn rational_inbound_narrows_to_f32_primitive() {
    let bits = 2.5f64.to_bits();
    let back = js_value_to_reflect(&ScriptValue::Rational(bits)).unwrap();
    assert_eq!(back, DynValue::Value(DynPrimitive::Float32OfBits(bits)));
}

#[test]
fn array_inbound_becomes_list() {
    let v = ScriptValue::Object(ScriptObject::Array(vec![
        ScriptValue::Integer(1),
        ScriptValue::Boolean(true),
    ]));
    let back = js_value_to_reflect(&v).unwrap();
    assert_eq!(
        back,
        DynValue::List(vec![
            DynValue::Value(DynPrimitive::Float32OfInt(1)),
            DynValue::Value(DynPrimitive::Bool(true)),
        ])
    );
}

#[test]
fn set_inbound_becomes_list() {
    let v = ScriptValue::Object(ScriptObject::SetObject(vec![
        ScriptValue::Integer(4),
        ScriptValue::Integer(5),
    ]));
    let back = js_value_to_reflect(&v).unwrap();
    assert_eq!(
        back,
        DynValue::List(vec![
            DynValue::Value(DynPrimitive::Float32OfInt(4)),
            DynValue::Value(DynPrimitive::Float32OfInt(5)),
        ])
    );
}

#[test]
fn plain_object_inbound_becomes_struct() {
    let v = ScriptValue::Object(ScriptObject::Plain(vec![
        ("a".to_string(), ScriptValue::Integer(1)),
        ("b".to_string(), ScriptValue::Text("t".to_string())),
    ]));
    let back = js_value_to_reflect(&v).unwrap();
    assert_eq!(
        back,
        DynValue::Struct(vec![
            ("a".to_string(), DynValue::Value(DynPrimitive::Float32OfInt(1))),
            ("b".to_string(), DynValue::Value(DynPrimitive::Text("t".to_string()))),
        ])
    );
}

#[test]
fn object_with_variant_marker_fails_unsupported() {
    let v = ScriptValue::Object(ScriptObject::Plain(vec![
        ("x".to_string(), ScriptValue::Integer(5)),
        ("__variant".to_string(), ScriptValue::Text("Foo".to_string())),
    ]));
    assert_eq!(js_value_to_reflect(&v), Err(ConversionError::UnsupportedValueKind));
}

#[test]
fn object_with_null_variant_marker_is_accepted() {
    let v = ScriptValue::Object(ScriptObject::Plain(vec![(
        "__variant".to_string(),
        ScriptValue::Null,
    )]));
    let back = js_value_to_reflect(&v).unwrap();
    assert_eq!(
        back,
        DynValue::Struct(vec![("__variant".to_string(), DynValue::Value(DynPrimitive::Unit))])
    );
}

#[test]
fn map_round_trip_keeps_entries_in_order() {
    let host = ReflectValue::Mapping(vec![
        (prim(Primitive::Text("a".to_string())), prim(Primitive::I32(1))),
        (prim(Primitive::Text("b".to_string())), prim(Primitive::I32(2))),
    ]);
    let out = reflect_to_js_value(&host).unwrap();
    assert_eq!(
        out,
        ScriptValue::Object(ScriptObject::MapObject(vec![
            (ScriptValue::Text("a".to_string()), ScriptValue::Integer(1)),
            (ScriptValue::Text("b".to_string()), ScriptValue::Integer(2)),
        ]))
    );
    let back = js_value_to_reflect(&out).unwrap();
    assert_eq!(
        back,
        DynValue::Mapping(vec![
            (
                DynValue::Value(DynPrimitive::Text("a".to_string())),
                DynValue::Value(DynPrimitive::Float32OfInt(1)),
            ),
            (
                DynValue::Value(DynPrimitive::Text("b".to_string())),
                DynValue::Value(DynPrimitive::Float32OfInt(2)),
            ),
        ])
    );
}

#[test]
fn error_descriptions() {
    assert_eq!(ConversionError::UnsupportedValueKind.describe(), "unsupported value kind");
    assert_eq!(ConversionError::MissingMetadata.describe(), "missing field metadata");
}
