//! Positional encodings of the aggregate types: the exact scalar
//! sequence each value renders to, and the decode that reads it back.

use aggregate_codec::codec::{
    decode_mat2_seq, decode_mat3_seq, decode_mat4_seq, decode_rotor3_seq, decode_vec2_seq,
    decode_vec3_seq, decode_vec4_seq, encode_mat2_seq, encode_mat3_seq, encode_mat4_seq,
    encode_rotor3_seq, encode_vec2_seq, encode_vec3_seq, encode_vec4_seq,
};
use aggregate_codec::types::{Bivec3, Mat2, Mat3, Mat4, Rotor3, Vec2, Vec3, Vec4};

fn b(x: f32) -> u32 {
    x.to_bits()
}

#[test]
fn vec2() {
    let vec2 = Vec2::new(b(1.0), b(2.0));
    let out = encode_vec2_seq(&vec2);
    assert_eq!(out, vec![b(1.0), b(2.0)]);
    assert_eq!(decode_vec2_seq(&out), Ok(vec2));
}

#[test]
fn vec3() {
    let vec3 = Vec3::new(b(1.0), b(2.0), b(3.0));
    let out = encode_vec3_seq(&vec3);
    assert_eq!(out, vec![b(1.0), b(2.0), b(3.0)]);
    assert_eq!(decode_vec3_seq(&out), Ok(vec3));
}

#[test]
fn vec4() {
    let vec4 = Vec4::new(b(1.0), b(2.0), b(3.0), b(4.0));
    let out = encode_vec4_seq(&vec4);
    assert_eq!(out, vec![b(1.0), b(2.0), b(3.0), b(4.0)]);
    assert_eq!(decode_vec4_seq(&out), Ok(vec4));
}

#[test]
fn mat2() {
    let mat2 = Mat2::new(Vec2::new(b(1.0), b(2.0)), Vec2::new(b(3.0), b(4.0)));
    let out = encode_mat2_seq(&mat2);
    assert_eq!(out, vec![b(1.0), b(2.0), b(3.0), b(4.0)]);
    assert_eq!(decode_mat2_seq(&out), Ok(mat2));
}

#[test]
fn mat3() {
    let mat3 = Mat3::new(
        Vec3::new(b(1.0), b(2.0), b(3.0)),
        Vec3::new(b(4.0), b(5.0), b(6.0)),
        Vec3::new(b(7.0), b(8.0), b(9.0)),
    );
    let out = encode_mat3_seq(&mat3);
    assert_eq!(
        out,
        vec![b(1.0), b(2.0), b(3.0), b(4.0), b(5.0), b(6.0), b(7.0), b(8.0), b(9.0)]
    );
    assert_eq!(decode_mat3_seq(&out), Ok(mat3));
}

#[test]
fn mat4() {
    let mat4 = Mat4::new(
        Vec4::new(b(1.0), b(2.0), b(3.0), b(4.0)),
        Vec4::new(b(5.0), b(6.0), b(7.0), b(8.0)),
        Vec4::new(b(9.0), b(10.0), b(11.0), b(12.0)),
        Vec4::new(b(13.0), b(14.0), b(15.0), b(16.0)),
    );
    let out = encode_mat4_seq(&mat4);
    assert_eq!(
        out,
        vec![
            b(1.0),
            b(2.0),
            b(3.0),
            b(4.0),
            b(5.0),
            b(6.0),
            b(7.0),
            b(8.0),
            b(9.0),
            b(10.0),
            b(11.0),
            b(12.0),
            b(13.0),
            b(14.0),
            b(15.0),
            b(16.0),
        ]
    );
    assert_eq!(decode_mat4_seq(&out), Ok(mat4));
}

#[test]
fn rotor3() {
    let rotor3 = Rotor3::new(b(1.0), Bivec3::new(b(2.0), b(3.0), b(4.0)));
    let out = encode_rotor3_seq(&rotor3);
    assert_eq!(out, vec![b(1.0), b(2.0), b(3.0), b(4.0)]);
    assert_eq!(decode_rotor3_seq(&out), Ok(rotor3));
}

#[test]
fn trailing_values_are_left_alone() {
    // The positional decoder reads exactly its arity and never looks at
    // what follows.
    let input = vec![b(1.0), b(2.0), b(3.0)];
    assert_eq!(decode_vec2_seq(&input), Ok(Vec2::new(b(1.0), b(2.0))));
}

#[test]
fn round_trip_odd_bit_patterns() {
    // Bit patterns that are not ordinary numbers (a NaN, an infinity, a
    // signed zero) survive the round trip unchanged.
    let nan = f32::NAN.to_bits();
    let inf = f32::INFINITY.to_bits();
    let neg_zero = (-0.0f32).to_bits();
    let v = Vec3::new(nan, inf, neg_zero);
    assert_eq!(decode_vec3_seq(&encode_vec3_seq(&v)), Ok(v));
}
