//! The associative wire shape: field order, order independence, and the
//! error for each way an input can be flawed.

use aggregate_codec::codec::{
    decode_vec2_map, decode_vec3_map, decode_vec4_map, decode_vec3_seq, encode_vec4_map,
    DecodeError,
};
use aggregate_codec::types::{Vec2, Vec3, Vec4};

fn b(x: f32) -> u32 {
    x.to_bits()
}

fn pair(name: &str, x: f32) -> (String, u32) {
    (name.to_string(), b(x))
}

#[test]
fn structured_vec4_field_set_in_order() {
    // A 4-component vector renders as the field set
    // {x, y, z, w}, in that ordinal order.
    let v = Vec4::new(b(1.0), b(2.0), b(3.0), b(4.0));
    let out = encode_vec4_map(&v);
    assert_eq!(
        out,
        vec![pair("x", 1.0), pair("y", 2.0), pair("z", 3.0), pair("w", 4.0)]
    );
    assert_eq!(decode_vec4_map(&out), Ok(v));
}

#[test]
fn structured_vec4_reverse_key_order() {
    // Associative decoding is order-independent: the same field set in
    // reverse key order reconstructs the same vector.
    let reversed = vec![pair("w", 4.0), pair("z", 3.0), pair("y", 2.0), pair("x", 1.0)];
    assert_eq!(
        decode_vec4_map(&reversed),
        Ok(Vec4::new(b(1.0), b(2.0), b(3.0), b(4.0)))
    );
}

#[test]
fn unknown_field_is_an_error() {
    let input = vec![pair("x", 1.0), pair("q", 2.0)];
    assert_eq!(
        decode_vec2_map(&input),
        Err(DecodeError::UnknownField { name: "q".to_string() })
    );
}

#[test]
fn unknown_field_is_not_ignored_when_all_fields_are_present() {
    let input = vec![pair("x", 1.0), pair("y", 2.0), pair("q", 3.0)];
    assert_eq!(
        decode_vec2_map(&input),
        Err(DecodeError::UnknownField { name: "q".to_string() })
    );
}

#[test]
fn field_outside_this_arity_is_unknown() {
    // `z` is a field of 3- and 4-vectors, but not of a 2-vector.
    let input = vec![pair("x", 1.0), pair("z", 2.0)];
    assert_eq!(
        decode_vec2_map(&input),
        Err(DecodeError::UnknownField { name: "z".to_string() })
    );
}

#[test]
fn duplicate_field_is_an_error() {
    let input = vec![pair("x", 1.0), pair("y", 2.0), pair("y", 3.0)];
    assert_eq!(
        decode_vec2_map(&input),
        Err(DecodeError::DuplicateField { name: "y".to_string() })
    );
}

#[test]
fn duplicate_field_with_equal_values_is_still_an_error() {
    // A second occurrence is an error whether or not the values agree.
    let input = vec![pair("x", 1.0), pair("x", 1.0)];
    assert_eq!(
        decode_vec2_map(&input),
        Err(DecodeError::DuplicateField { name: "x".to_string() })
    );
}

#[test]
fn missing_field_is_an_error() {
    let input = vec![pair("x", 1.0), pair("z", 3.0)];
    assert_eq!(
        decode_vec3_map(&input),
        Err(DecodeError::MissingField { name: "y".to_string() })
    );
}

#[test]
fn missing_field_reports_the_lowest_ordinal() {
    let input = vec![pair("w", 4.0)];
    assert_eq!(
        decode_vec4_map(&input),
        Err(DecodeError::MissingField { name: "x".to_string() })
    );
}

#[test]
fn empty_input_misses_the_first_field() {
    let input: Vec<(String, u32)> = Vec::new();
    assert_eq!(
        decode_vec3_map(&input),
        Err(DecodeError::MissingField { name: "x".to_string() })
    );
}

#[test]
fn arity_error_reports_first_missing_index() {
    // A positional input of two scalars for a 3-vector fails at the
    // first missing read, index 2.
    let input = vec![b(1.0), b(2.0)];
    assert_eq!(
        decode_vec3_seq(&input),
        Err(DecodeError::ArityError { expected: 3, got: 2 })
    );
}

#[test]
fn arity_error_on_empty_input() {
    let input: Vec<u32> = Vec::new();
    assert_eq!(
        decode_vec3_seq(&input),
        Err(DecodeError::ArityError { expected: 3, got: 0 })
    );
}

#[test]
fn structured_round_trips() {
    let v2 = Vec2::new(b(-1.5), b(0.25));
    let v3 = Vec3::new(b(5.0), b(-6.0), b(7.5));
    let v4 = Vec4::new(b(0.0), b(1.0), b(-2.0), b(3.5));
    assert_eq!(
        decode_vec2_map(&aggregate_codec::codec::encode_vec2_map(&v2)),
        Ok(v2)
    );
    assert_eq!(
        decode_vec3_map(&aggregate_codec::codec::encode_vec3_map(&v3)),
        Ok(v3)
    );
    assert_eq!(decode_vec4_map(&encode_vec4_map(&v4)), Ok(v4));
}
