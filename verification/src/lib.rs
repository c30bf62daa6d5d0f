//! A bidirectional value bridge between a reflective (host-side) object
//! model and a scripting (interpreter-side) value model.
//!
//! The outbound converter turns a reflective value into a scripting value;
//! the inbound converter turns a scripting value into a dynamic reflective
//! value. Both are recursive tree transforms with no shared state.

pub mod digits;
pub mod dynamic;
pub mod error;
pub mod from;
pub mod into;
pub mod props;
pub mod script;
pub mod value;

pub use digits::{dec_int_of, dec_of, i64_to_decimal, u64_to_decimal};
pub use from::{
    has_variant_marker, js_array_to_reflect, js_map_to_reflect, js_object_to_reflect,
    js_set_to_reflect, js_value_to_reflect, reflect_of,
};
pub use into::{
    js_value_of, prim_to_js, primitive_to_js_value, reflect_array_to_js_array,
    reflect_enum_to_js_value, reflect_list_to_js_array, reflect_map_to_js_map,
    reflect_to_js_object, reflect_to_js_value, reflect_tuple_struct_to_js_array,
    reflect_tuple_to_js_array, variant_key, variant_key_str,
};
pub use dynamic::{DynPrimV, DynPrimitive, DynV, DynValue};
pub use error::ConversionError;
pub use script::{ScriptObjV, ScriptObject, ScriptV, ScriptValue};
pub use value::{PrimV, Primitive, ReflectV, ReflectValue};
