//! The decoder and encoder for the two wire shapes.
//!
//! Positional mode reads exactly `arity` scalars in ordinal order and
//! reports the index of the first missing read. Associative mode runs an
//! accumulator over (name, value) pairs in input order: an unresolvable
//! name or a second occurrence of a resolved one aborts the decode at
//! once, and after the pairs are exhausted the lowest absent ordinal, if
//! any, is reported missing. The whole associative state machine is
//! mirrored by the spec functions [`assoc_run`] and [`finish_from`], and
//! every decode result is pinned to them.

use vstd::prelude::*;
use vstd::pervasive::VecAdditionalExecFns;

use crate::types::{Scalar, Vec2, Vec3, Vec4, Bivec3, Rotor3, Mat2, Mat3, Mat4};
use crate::field::{axis_name, resolve_name, axis_field, resolve_field};

verus! {

/// Why a decode failed. Every error ends the decode that raised it;
/// there is no partial result and no retry.
#[derive(Debug, PartialEq)]
pub enum DecodeError {
    /// A positional input ran out before `expected` scalars were read;
    /// the first missing read was at index `got`.
    ArityError { expected: usize, got: usize },
    /// An associative input named a field outside the field table.
    UnknownField { name: String },
    /// An associative input named the same field a second time, whatever
    /// the paired values were.
    DuplicateField { name: String },
    /// An associative input ended without naming this field.
    MissingField { name: String },
}

/// What an associative decode comes to, at the specification level:
/// the values in ordinal order, or the offending field name.
pub enum DecodeOutcome {
    Done(Seq<Scalar>),
    Unknown(Seq<char>),
    Duplicate(Seq<char>),
    Missing(Seq<char>),
}

/// The name/value pairs of an associative input, with names as character
/// sequences.
pub open spec fn pairs_view(pairs: Seq<(String, Scalar)>) -> Seq<(Seq<char>, Scalar)> {
    pairs.map_values(|p: (String, Scalar)| (p.0@, p.1))
}

/// The accumulator at the start of an associative decode: every ordinal
/// absent.
pub open spec fn init_acc(arity: int) -> Seq<Option<Scalar>> {
    Seq::new(arity as nat, |i: int| None::<Scalar>)
}

/// The completion scan over the accumulator, from ordinal `i` up: the
/// lowest absent ordinal names the missing field; with every ordinal
/// present the values are read off in ordinal order.
pub open spec fn finish_from(acc: Seq<Option<Scalar>>, i: int) -> DecodeOutcome
    decreases acc.len() - i,
{
    if i < 0 || i >= acc.len() {
        DecodeOutcome::Done(acc.map_values(|o: Option<Scalar>| o.unwrap()))
    } else if acc[i] is None {
        DecodeOutcome::Missing(axis_name(i))
    } else {
        finish_from(acc, i + 1)
    }
}

/// The associative decode state machine: fold the pairs, in input order,
/// into the accumulator, stopping at the first unknown or duplicated
/// name; then scan for an absent ordinal.
pub open spec fn assoc_run(
    arity: int,
    acc: Seq<Option<Scalar>>,
    pairs: Seq<(Seq<char>, Scalar)>,
) -> DecodeOutcome
    decreases pairs.len(),
{
    if pairs.len() == 0 {
        finish_from(acc, 0)
    } else {
        let name = pairs[0].0;
        let value = pairs[0].1;
        match resolve_name(arity, name) {
            Option::None => DecodeOutcome::Unknown(name),
            Option::Some(i) => {
                if acc[i] is Some {
                    DecodeOutcome::Duplicate(name)
                } else {
                    assoc_run(arity, acc.update(i, Some(value)), pairs.drop_first())
                }
            },
        }
    }
}

/// What decoding an associative input of the given pairs must come to.
pub open spec fn assoc_spec(arity: int, pairs: Seq<(Seq<char>, Scalar)>) -> DecodeOutcome {
    assoc_run(arity, init_acc(arity), pairs)
}

/// The error `e` reports exactly the outcome `o`.
pub open spec fn assoc_error(o: DecodeOutcome, e: DecodeError) -> bool {
    match e {
        DecodeError::UnknownField { name } => o == DecodeOutcome::Unknown(name@),
        DecodeError::DuplicateField { name } => o == DecodeOutcome::Duplicate(name@),
        DecodeError::MissingField { name } => o == DecodeOutcome::Missing(name@),
        DecodeError::ArityError { .. } => false,
    }
}

/// Decode an associative input against the field table of a vector of
/// `arity` components: the values in ordinal order, or the error the
/// state machine stops at.
pub fn decode_assoc(arity: usize, pairs: &Vec<(String, Scalar)>) -> (r: Result<
    Vec<Scalar>,
    DecodeError,
>)
    requires
        2 <= arity <= 4,
    ensures
        match r {
            Ok(vals) => vals@.len() == arity && assoc_spec(arity as int, pairs_view(pairs@))
                == DecodeOutcome::Done(vals@),
            Err(e) => assoc_error(assoc_spec(arity as int, pairs_view(pairs@)), e),
        },
{
    let ghost pv = pairs_view(pairs@);
    let mut acc: Vec<Option<Scalar>> = Vec::new();
    let mut k: usize = 0;
    while k < arity
        invariant
            k <= arity,
            acc@.len() == k as int,
            forall|i: int| 0 <= i < k ==> acc@[i] is None,
        decreases arity - k,
    {
        acc.push(None);
        k += 1;
    }
    proof {
        assert(acc@ =~= init_acc(arity as int));
        assert(pv.skip(0) =~= pv);
    }
    let ghost init = acc@;

    let mut j: usize = 0;
    while j < pairs.len()
        invariant
            2 <= arity <= 4,
            j <= pairs.len(),
            acc@.len() == arity as int,
            pv == pairs_view(pairs@),
            init == init_acc(arity as int),
            assoc_run(arity as int, init, pv) == assoc_run(arity as int, acc@, pv.skip(j as int)),
        decreases pairs.len() - j,
    {
        let pair = &pairs[j];
        proof {
            assert(pv[j as int] == (pairs@[j as int].0@, pairs@[j as int].1));
            assert(pv.skip(j as int)[0] == pv[j as int]);
        }
        match resolve_field(arity, &pair.0) {
            Option::None => {
                proof {
                    assert(assoc_run(arity as int, acc@, pv.skip(j as int))
                        == DecodeOutcome::Unknown(pair.0@));
                }
                return Err(DecodeError::UnknownField { name: pair.0.clone() });
            },
            Option::Some(i) => {
                if acc[i].is_some() {
                    proof {
                        assert(assoc_run(arity as int, acc@, pv.skip(j as int))
                            == DecodeOutcome::Duplicate(pair.0@));
                    }
                    return Err(DecodeError::DuplicateField { name: pair.0.clone() });
                }
                let value = pair.1;
                acc.set(i, Some(value));
                proof {
                    assert(pv.skip(j as int).drop_first() =~= pv.skip(j as int + 1));
                }
            },
        }
        j += 1;
    }
    proof {
        assert(pv.skip(pairs@.len() as int) =~= Seq::<(Seq<char>, Scalar)>::empty());
        assert(assoc_run(arity as int, acc@, pv.skip(pairs@.len() as int))
            == finish_from(acc@, 0));
    }

    let mut vals: Vec<Scalar> = Vec::new();
    let mut i: usize = 0;
    while i < arity
        invariant
            arity <= 4,
            i <= arity,
            acc@.len() == arity as int,
            vals@.len() == i as int,
            finish_from(acc@, 0) == finish_from(acc@, i as int),
            forall|m: int| 0 <= m < i ==> (#[trigger] acc@[m]) is Some,
            forall|m: int| 0 <= m < i ==> #[trigger] vals@[m] == acc@[m].unwrap(),
            assoc_spec(arity as int, pairs_view(pairs@)) == finish_from(acc@, 0),
        decreases arity - i,
    {
        let o = acc[i];
        match o {
            Option::Some(v) => {
                let ghost prev = vals@;
                vals.push(v);
                proof {
                    assert(acc@[i as int] is Some && acc@[i as int].unwrap() == v);
                    assert(forall|m: int| 0 <= m < prev.len() ==> vals@[m] == prev[m]);
                    assert(vals@[i as int] == v);
                }
            },
            Option::None => {
                proof {
                    assert(finish_from(acc@, i as int)
                        == DecodeOutcome::Missing(axis_name(i as int)));
                }
                let name = axis_field(i);
                return Err(DecodeError::MissingField { name });
            },
        }
        i += 1;
    }
    proof {
        assert(finish_from(acc@, arity as int)
            == DecodeOutcome::Done(acc@.map_values(|o: Option<Scalar>| o.unwrap())));
        assert(vals@ =~= acc@.map_values(|o: Option<Scalar>| o.unwrap()));
    }
    Ok(vals)
}

/// Read exactly `arity` scalars from the front of a positional input, in
/// ordinal order. Trailing input beyond `arity` is never read; an input
/// that runs out fails at the index of the first missing read, which for
/// a short input is its length.
pub fn read_positional(input: &Vec<Scalar>, arity: usize) -> (r: Result<Vec<Scalar>, DecodeError>)
    ensures
        (r is Ok) == (input@.len() >= arity),
        input@.len() >= arity ==> (r matches Ok(vals) && vals@ == input@.take(arity as int)),
        input@.len() < arity ==> (r matches Err(e)
            && (e matches DecodeError::ArityError { expected, got }
            && expected == arity && got == input@.len())),
{
    if input.len() < arity {
        return Err(DecodeError::ArityError { expected: arity, got: input.len() });
    }
    let mut vals: Vec<Scalar> = Vec::new();
    let mut i: usize = 0;
    while i < arity
        invariant
            i <= arity,
            arity <= input@.len(),
            vals@ =~= input@.take(i as int),
        decreases arity - i,
    {
        vals.push(input[i]);
        i += 1;
        proof {
            assert(vals@ =~= input@.take(i as int));
        }
    }
    Ok(vals)
}

/// The aggregate a positional input denotes, read off the front of the
/// scalar sequence in ordinal order.
pub open spec fn vec2_from_seq(s: Seq<Scalar>) -> Vec2 {
    Vec2 { x: s[0], y: s[1] }
}

/// The aggregate a positional input denotes.
pub open spec fn vec3_from_seq(s: Seq<Scalar>) -> Vec3 {
    Vec3 { x: s[0], y: s[1], z: s[2] }
}

/// The aggregate a positional input denotes.
pub open spec fn vec4_from_seq(s: Seq<Scalar>) -> Vec4 {
    Vec4 { x: s[0], y: s[1], z: s[2], w: s[3] }
}

/// The rotor a positional input denotes: scalar part first, then the
/// bivector planes.
pub open spec fn rotor3_from_seq(s: Seq<Scalar>) -> Rotor3 {
    Rotor3 { s: s[0], bv: Bivec3 { xy: s[1], xz: s[2], yz: s[3] } }
}

/// The matrix a positional input denotes: columns in order, each read
/// from its own stretch of the flat sequence.
pub open spec fn mat2_from_seq(s: Seq<Scalar>) -> Mat2 {
    Mat2 { c0: vec2_from_seq(s), c1: vec2_from_seq(s.skip(2)) }
}

/// The matrix a positional input denotes, column-major.
pub open spec fn mat3_from_seq(s: Seq<Scalar>) -> Mat3 {
    Mat3 { c0: vec3_from_seq(s), c1: vec3_from_seq(s.skip(3)), c2: vec3_from_seq(s.skip(6)) }
}

/// The matrix a positional input denotes, column-major.
pub open spec fn mat4_from_seq(s: Seq<Scalar>) -> Mat4 {
    Mat4 {
        c0: vec4_from_seq(s),
        c1: vec4_from_seq(s.skip(4)),
        c2: vec4_from_seq(s.skip(8)),
        c3: vec4_from_seq(s.skip(12)),
    }
}

/// Positional decode fails exactly on a short input, with the index of
/// the first missing read.
pub open spec fn positional_arity_error(e: DecodeError, arity: int, len: nat) -> bool {
    e matches DecodeError::ArityError { expected, got } && expected == arity && got == len
}

pub fn decode_vec2_seq(input: &Vec<Scalar>) -> (r: Result<Vec2, DecodeError>)
    ensures
        (r is Ok) == (input@.len() >= 2),
        input@.len() >= 2 ==> (r matches Ok(v) && v == vec2_from_seq(input@)),
        input@.len() < 2 ==> (r matches Err(e) && positional_arity_error(e, 2, input@.len())),
{
    match read_positional(input, 2) {
        Ok(vals) => Ok(Vec2::new(vals[0], vals[1])),
        Err(e) => Err(e),
    }
}

pub fn decode_vec3_seq(input: &Vec<Scalar>) -> (r: Result<Vec3, DecodeError>)
    ensures
        (r is Ok) == (input@.len() >= 3),
        input@.len() >= 3 ==> (r matches Ok(v) && v == vec3_from_seq(input@)),
        input@.len() < 3 ==> (r matches Err(e) && positional_arity_error(e, 3, input@.len())),
{
    match read_positional(input, 3) {
        Ok(vals) => Ok(Vec3::new(vals[0], vals[1], vals[2])),
        Err(e) => Err(e),
    }
}

pub fn decode_vec4_seq(input: &Vec<Scalar>) -> (r: Result<Vec4, DecodeError>)
    ensures
        (r is Ok) == (input@.len() >= 4),
        input@.len() >= 4 ==> (r matches Ok(v) && v == vec4_from_seq(input@)),
        input@.len() < 4 ==> (r matches Err(e) && positional_arity_error(e, 4, input@.len())),
{
    match read_positional(input, 4) {
        Ok(vals) => Ok(Vec4::new(vals[0], vals[1], vals[2], vals[3])),
        Err(e) => Err(e),
    }
}

pub fn decode_rotor3_seq(input: &Vec<Scalar>) -> (r: Result<Rotor3, DecodeError>)
    ensures
        (r is Ok) == (input@.len() >= 4),
        input@.len() >= 4 ==> (r matches Ok(v) && v == rotor3_from_seq(input@)),
        input@.len() < 4 ==> (r matches Err(e) && positional_arity_error(e, 4, input@.len())),
{
    match read_positional(input, 4) {
        Ok(vals) => Ok(Rotor3::new(vals[0], Bivec3::new(vals[1], vals[2], vals[3]))),
        Err(e) => Err(e),
    }
}

pub fn decode_mat2_seq(input: &Vec<Scalar>) -> (r: Result<Mat2, DecodeError>)
    ensures
        (r is Ok) == (input@.len() >= 4),
        input@.len() >= 4 ==> (r matches Ok(m) && m == mat2_from_seq(input@)),
        input@.len() < 4 ==> (r matches Err(e) && positional_arity_error(e, 4, input@.len())),
{
    match read_positional(input, 4) {
        Ok(vals) => {
            let m = Mat2::new(Vec2::new(vals[0], vals[1]), Vec2::new(vals[2], vals[3]));
            Ok(m)
        },
        Err(e) => Err(e),
    }
}

pub fn decode_mat3_seq(input: &Vec<Scalar>) -> (r: Result<Mat3, DecodeError>)
    ensures
        (r is Ok) == (input@.len() >= 9),
        input@.len() >= 9 ==> (r matches Ok(m) && m == mat3_from_seq(input@)),
        input@.len() < 9 ==> (r matches Err(e) && positional_arity_error(e, 9, input@.len())),
{
    match read_positional(input, 9) {
        Ok(vals) => {
            let m = Mat3::new(
                Vec3::new(vals[0], vals[1], vals[2]),
                Vec3::new(vals[3], vals[4], vals[5]),
                Vec3::new(vals[6], vals[7], vals[8]),
            );
            Ok(m)
        },
        Err(e) => Err(e),
    }
}

pub fn decode_mat4_seq(input: &Vec<Scalar>) -> (r: Result<Mat4, DecodeError>)
    ensures
        (r is Ok) == (input@.len() >= 16),
        input@.len() >= 16 ==> (r matches Ok(m) && m == mat4_from_seq(input@)),
        input@.len() < 16 ==> (r matches Err(e) && positional_arity_error(e, 16, input@.len())),
{
    match read_positional(input, 16) {
        Ok(vals) => {
            let m = Mat4::new(
                Vec4::new(vals[0], vals[1], vals[2], vals[3]),
                Vec4::new(vals[4], vals[5], vals[6], vals[7]),
                Vec4::new(vals[8], vals[9], vals[10], vals[11]),
                Vec4::new(vals[12], vals[13], vals[14], vals[15]),
            );
            Ok(m)
        },
        Err(e) => Err(e),
    }
}

/// The associative rendering of a component sequence: one (name, value)
/// pair per ordinal, in ordinal order.
pub open spec fn assoc_encoding(s: Seq<Scalar>) -> Seq<(Seq<char>, Scalar)> {
    Seq::new(s.len(), |i: int| (axis_name(i), s[i]))
}

pub fn encode_vec2_seq(v: &Vec2) -> (out: Vec<Scalar>)
    ensures
        out@ == v.as_seq(),
{
    let mut out: Vec<Scalar> = Vec::new();
    out.push(v.x);
    out.push(v.y);
    proof {
        assert(out@ =~= v.as_seq());
    }
    out
}

pub fn encode_vec3_seq(v: &Vec3) -> (out: Vec<Scalar>)
    ensures
        out@ == v.as_seq(),
{
    let mut out: Vec<Scalar> = Vec::new();
    out.push(v.x);
    out.push(v.y);
    out.push(v.z);
    proof {
        assert(out@ =~= v.as_seq());
    }
    out
}

pub fn encode_vec4_seq(v: &Vec4) -> (out: Vec<Scalar>)
    ensures
        out@ == v.as_seq(),
{
    let mut out: Vec<Scalar> = Vec::new();
    out.push(v.x);
    out.push(v.y);
    out.push(v.z);
    out.push(v.w);
    proof {
        assert(out@ =~= v.as_seq());
    }
    out
}

pub fn encode_rotor3_seq(v: &Rotor3) -> (out: Vec<Scalar>)
    ensures
        out@ == v.as_seq(),
{
    let mut out: Vec<Scalar> = Vec::new();
    out.push(v.s);
    out.push(v.bv.xy);
    out.push(v.bv.xz);
    out.push(v.bv.yz);
    proof {
        assert(out@ =~= v.as_seq());
    }
    out
}

pub fn encode_mat2_seq(m: &Mat2) -> (out: Vec<Scalar>)
    ensures
        out@ == m.as_seq(),
{
    let mut out: Vec<Scalar> = Vec::new();
    out.push(m.c0.x);
    out.push(m.c0.y);
    out.push(m.c1.x);
    out.push(m.c1.y);
    proof {
        assert(out@ =~= m.as_seq());
    }
    out
}

pub fn encode_mat3_seq(m: &Mat3) -> (out: Vec<Scalar>)
    ensures
        out@ == m.as_seq(),
{
    let mut out: Vec<Scalar> = Vec::new();
    out.push(m.c0.x);
    out.push(m.c0.y);
    out.push(m.c0.z);
    out.push(m.c1.x);
    out.push(m.c1.y);
    out.push(m.c1.z);
    out.push(m.c2.x);
    out.push(m.c2.y);
    out.push(m.c2.z);
    proof {
        assert(out@ =~= m.as_seq());
    }
    out
}

pub fn encode_mat4_seq(m: &Mat4) -> (out: Vec<Scalar>)
    ensures
        out@ == m.as_seq(),
{
    let mut out: Vec<Scalar> = Vec::new();
    out.push(m.c0.x);
    out.push(m.c0.y);
    out.push(m.c0.z);
    out.push(m.c0.w);
    out.push(m.c1.x);
    out.push(m.c1.y);
    out.push(m.c1.z);
    out.push(m.c1.w);
    out.push(m.c2.x);
    out.push(m.c2.y);
    out.push(m.c2.z);
    out.push(m.c2.w);
    out.push(m.c3.x);
    out.push(m.c3.y);
    out.push(m.c3.z);
    out.push(m.c3.w);
    proof {
        assert(out@ =~= m.as_seq());
    }
    out
}

pub fn encode_vec2_map(v: &Vec2) -> (out: Vec<(String, Scalar)>)
    ensures
        pairs_view(out@) == assoc_encoding(v.as_seq()),
{
    let mut out: Vec<(String, Scalar)> = Vec::new();
    out.push((axis_field(0), v.x));
    out.push((axis_field(1), v.y));
    proof {
        assert(pairs_view(out@) =~= assoc_encoding(v.as_seq()));
    }
    out
}

pub fn encode_vec3_map(v: &Vec3) -> (out: Vec<(String, Scalar)>)
    ensures
        pairs_view(out@) == assoc_encoding(v.as_seq()),
{
    let mut out: Vec<(String, Scalar)> = Vec::new();
    out.push((axis_field(0), v.x));
    out.push((axis_field(1), v.y));
    out.push((axis_field(2), v.z));
    proof {
        assert(pairs_view(out@) =~= assoc_encoding(v.as_seq()));
    }
    out
}

pub fn encode_vec4_map(v: &Vec4) -> (out: Vec<(String, Scalar)>)
    ensures
        pairs_view(out@) == assoc_encoding(v.as_seq()),
{
    let mut out: Vec<(String, Scalar)> = Vec::new();
    out.push((axis_field(0), v.x));
    out.push((axis_field(1), v.y));
    out.push((axis_field(2), v.z));
    out.push((axis_field(3), v.w));
    proof {
        assert(pairs_view(out@) =~= assoc_encoding(v.as_seq()));
    }
    out
}

pub fn decode_vec2_map(pairs: &Vec<(String, Scalar)>) -> (r: Result<Vec2, DecodeError>)
    ensures
        match r {
            Ok(v) => assoc_spec(2, pairs_view(pairs@)) == DecodeOutcome::Done(v.as_seq()),
            Err(e) => assoc_error(assoc_spec(2, pairs_view(pairs@)), e),
        },
{
    match decode_assoc(2, pairs) {
        Ok(vals) => {
            let v = Vec2::new(vals[0], vals[1]);
            proof {
                assert(v.as_seq() =~= vals@);
            }
            Ok(v)
        },
        Err(e) => Err(e),
    }
}

pub fn decode_vec3_map(pairs: &Vec<(String, Scalar)>) -> (r: Result<Vec3, DecodeError>)
    ensures
        match r {
            Ok(v) => assoc_spec(3, pairs_view(pairs@)) == DecodeOutcome::Done(v.as_seq()),
            Err(e) => assoc_error(assoc_spec(3, pairs_view(pairs@)), e),
        },
{
    match decode_assoc(3, pairs) {
        Ok(vals) => {
            let v = Vec3::new(vals[0], vals[1], vals[2]);
            proof {
                assert(v.as_seq() =~= vals@);
            }
            Ok(v)
        },
        Err(e) => Err(e),
    }
}

pub fn decode_vec4_map(pairs: &Vec<(String, Scalar)>) -> (r: Result<Vec4, DecodeError>)
    ensures
        match r {
            Ok(v) => assoc_spec(4, pairs_view(pairs@)) == DecodeOutcome::Done(v.as_seq()),
            Err(e) => assoc_error(assoc_spec(4, pairs_view(pairs@)), e),
        },
{
    match decode_assoc(4, pairs) {
        Ok(vals) => {
            let v = Vec4::new(vals[0], vals[1], vals[2], vals[3]);
            proof {
                assert(v.as_seq() =~= vals@);
            }
            Ok(v)
        },
        Err(e) => Err(e),
    }
}

} // verus!
