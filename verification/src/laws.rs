//! The laws the codec obeys.
//!
//! The round-trip laws say that decoding what the encoder produced gives
//! back the very aggregate, bit for bit, in both wire modes. The error
//! laws pin the associative state machine's behaviour on flawed inputs:
//! the first unknown name, the first duplicated name, and the lowest
//! absent ordinal are reported, exactly as the decoder contracts say.

use vstd::prelude::*;

use crate::types::{Scalar, Vec2, Vec3, Vec4, Rotor3, Mat2, Mat3, Mat4};
use crate::field::{axis_name, resolve_name, lemma_resolve_axis};
use crate::codec::{
    DecodeOutcome, assoc_run, assoc_spec, assoc_encoding, finish_from, init_acc,
    vec2_from_seq, vec3_from_seq, vec4_from_seq, rotor3_from_seq,
    mat2_from_seq, mat3_from_seq, mat4_from_seq,
};

verus! {

// ---------------------------------------------------------------------
// Positional round trips.
//
// `encode_*_seq` ensures its output is `v.as_seq()`, and `decode_*_seq`
// ensures that on an input of at least `arity` scalars it returns
// `*_from_seq(input)`. These lemmas close the circle: reading an
// aggregate's own flattening reproduces the aggregate, so a decode of an
// encode returns `Ok(v)`, bit for bit.
// ---------------------------------------------------------------------

/// Positional round trip for 2-vectors.
pub proof fn lemma_positional_round_trip_vec2(v: Vec2)
    ensures
        v.as_seq().len() == 2,
        vec2_from_seq(v.as_seq()) == v,
{
}

/// Positional round trip for 3-vectors.
pub proof fn lemma_positional_round_trip_vec3(v: Vec3)
    ensures
        v.as_seq().len() == 3,
        vec3_from_seq(v.as_seq()) == v,
{
}

/// Positional round trip for 4-vectors.
pub proof fn lemma_positional_round_trip_vec4(v: Vec4)
    ensures
        v.as_seq().len() == 4,
        vec4_from_seq(v.as_seq()) == v,
{
}

/// Positional round trip for rotors.
pub proof fn lemma_positional_round_trip_rotor3(v: Rotor3)
    ensures
        v.as_seq().len() == 4,
        rotor3_from_seq(v.as_seq()) == v,
{
}

/// Positional round trip for 2x2 matrices: the column-major flattening
/// reads back into the same columns.
pub proof fn lemma_positional_round_trip_mat2(m: Mat2)
    ensures
        m.as_seq().len() == 4,
        mat2_from_seq(m.as_seq()) == m,
{
    assert(m.as_seq().skip(2) =~= m.c1.as_seq());
}

/// Positional round trip for 3x3 matrices.
pub proof fn lemma_positional_round_trip_mat3(m: Mat3)
    ensures
        m.as_seq().len() == 9,
        mat3_from_seq(m.as_seq()) == m,
{
    assert(m.as_seq().skip(3) =~= m.c1.as_seq() + m.c2.as_seq());
    assert(m.as_seq().skip(6) =~= m.c2.as_seq());
}

/// Positional round trip for 4x4 matrices.
pub proof fn lemma_positional_round_trip_mat4(m: Mat4)
    ensures
        m.as_seq().len() == 16,
        mat4_from_seq(m.as_seq()) == m,
{
    assert(m.as_seq().skip(4) =~= m.c1.as_seq() + m.c2.as_seq() + m.c3.as_seq());
    assert(m.as_seq().skip(8) =~= m.c2.as_seq() + m.c3.as_seq());
    assert(m.as_seq().skip(12) =~= m.c3.as_seq());
}

// ---------------------------------------------------------------------
// The associative state machine on inputs whose processed prefix is
// clean: every name resolves, and no ordinal repeats.
// ---------------------------------------------------------------------

/// Every pair's name resolves in the field table of `arity`.
pub open spec fn all_resolve(arity: int, pairs: Seq<(Seq<char>, Scalar)>) -> bool {
    forall|j: int| 0 <= j < pairs.len() ==> resolve_name(arity, #[trigger] pairs[j].0) is Some
}

/// No two pairs resolve to the same ordinal.
pub open spec fn distinct_ordinals(arity: int, pairs: Seq<(Seq<char>, Scalar)>) -> bool {
    forall|j: int, k: int| 0 <= j < k < pairs.len()
        ==> resolve_name(arity, #[trigger] pairs[j].0)
            != resolve_name(arity, #[trigger] pairs[k].0)
}

/// The accumulator after folding a clean input into `acc`: each pair's
/// value stored at its ordinal.
pub open spec fn fill(
    arity: int,
    acc: Seq<Option<Scalar>>,
    pairs: Seq<(Seq<char>, Scalar)>,
) -> Seq<Option<Scalar>>
    decreases pairs.len(),
{
    if pairs.len() == 0 {
        acc
    } else {
        match resolve_name(arity, pairs[0].0) {
            Option::Some(i) => fill(arity, acc.update(i, Some(pairs[0].1)), pairs.drop_first()),
            Option::None => acc,
        }
    }
}

/// On a clean input whose ordinals are all still absent from `acc`, the
/// state machine raises no error: it runs to the completion scan over
/// the filled accumulator.
proof fn lemma_run_clean(arity: int, acc: Seq<Option<Scalar>>, pairs: Seq<(Seq<char>, Scalar)>)
    requires
        acc.len() == arity,
        all_resolve(arity, pairs),
        distinct_ordinals(arity, pairs),
        forall|j: int| 0 <= j < pairs.len()
            ==> acc[resolve_name(arity, #[trigger] pairs[j].0).unwrap()] is None,
    ensures
        assoc_run(arity, acc, pairs) == finish_from(fill(arity, acc, pairs), 0),
    decreases pairs.len(),
{
    if pairs.len() > 0 {
        let i0 = resolve_name(arity, pairs[0].0).unwrap();
        assert(resolve_name(arity, pairs[0].0) is Some);
        assert(acc[i0] is None);
        let acc2 = acc.update(i0, Some(pairs[0].1));
        let tail = pairs.drop_first();
        assert forall|j: int| 0 <= j < tail.len() implies resolve_name(
            arity,
            #[trigger] tail[j].0,
        ) is Some by {
            assert(tail[j] == pairs[j + 1]);
        }
        assert forall|j: int, k: int| 0 <= j < k < tail.len() implies resolve_name(
            arity,
            #[trigger] tail[j].0,
        ) != resolve_name(arity, #[trigger] tail[k].0) by {
            assert(tail[j] == pairs[j + 1]);
            assert(tail[k] == pairs[k + 1]);
        }
        assert forall|j: int| 0 <= j < tail.len() implies acc2[resolve_name(
            arity,
            #[trigger] tail[j].0,
        ).unwrap()] is None by {
            assert(tail[j] == pairs[j + 1]);
            assert(resolve_name(arity, pairs[0].0) != resolve_name(arity, pairs[j + 1].0));
        }
        lemma_run_clean(arity, acc2, tail);
    }
}

/// Folding a clean input never changes the accumulator's length.
proof fn lemma_fill_len(arity: int, acc: Seq<Option<Scalar>>, pairs: Seq<(Seq<char>, Scalar)>)
    requires
        acc.len() == arity,
    ensures
        fill(arity, acc, pairs).len() == acc.len(),
    decreases pairs.len(),
{
    if pairs.len() > 0 {
        match resolve_name(arity, pairs[0].0) {
            Option::Some(i) => {
                assert(0 <= i < arity);
                lemma_fill_len(arity, acc.update(i, Some(pairs[0].1)), pairs.drop_first());
            },
            Option::None => {},
        }
    }
}

/// An ordinal no pair resolves to keeps its entry through the fold.
proof fn lemma_fill_untouched(
    arity: int,
    acc: Seq<Option<Scalar>>,
    pairs: Seq<(Seq<char>, Scalar)>,
    i: int,
)
    requires
        acc.len() == arity,
        0 <= i < arity,
        all_resolve(arity, pairs),
        forall|j: int| 0 <= j < pairs.len()
            ==> resolve_name(arity, #[trigger] pairs[j].0).unwrap() != i,
    ensures
        fill(arity, acc, pairs)[i] == acc[i],
    decreases pairs.len(),
{
    if pairs.len() > 0 {
        let i0 = resolve_name(arity, pairs[0].0).unwrap();
        assert(resolve_name(arity, pairs[0].0) is Some);
        assert(0 <= i0 < arity);
        let acc2 = acc.update(i0, Some(pairs[0].1));
        let tail = pairs.drop_first();
        assert forall|j: int| 0 <= j < tail.len() implies resolve_name(
            arity,
            #[trigger] tail[j].0,
        ) is Some && resolve_name(arity, tail[j].0).unwrap() != i by {
            assert(tail[j] == pairs[j + 1]);
        }
        lemma_fill_untouched(arity, acc2, tail, i);
        assert(acc2[i] == acc[i]);
    }
}

/// Each pair of a clean input ends up stored: the filled accumulator
/// holds the pair's value at the pair's ordinal.
proof fn lemma_fill_hits(
    arity: int,
    acc: Seq<Option<Scalar>>,
    pairs: Seq<(Seq<char>, Scalar)>,
    j: int,
)
    requires
        acc.len() == arity,
        all_resolve(arity, pairs),
        distinct_ordinals(arity, pairs),
        0 <= j < pairs.len(),
    ensures
        fill(arity, acc, pairs)[resolve_name(arity, pairs[j].0).unwrap()] == Some(pairs[j].1),
    decreases pairs.len(),
{
    let i0 = resolve_name(arity, pairs[0].0).unwrap();
    assert(resolve_name(arity, pairs[0].0) is Some);
    assert(0 <= i0 < arity);
    let acc2 = acc.update(i0, Some(pairs[0].1));
    let tail = pairs.drop_first();
    assert forall|k: int| 0 <= k < tail.len() implies resolve_name(
        arity,
        #[trigger] tail[k].0,
    ) is Some by {
        assert(tail[k] == pairs[k + 1]);
    }
    assert forall|k1: int, k2: int| 0 <= k1 < k2 < tail.len() implies resolve_name(
        arity,
        #[trigger] tail[k1].0,
    ) != resolve_name(arity, #[trigger] tail[k2].0) by {
        assert(tail[k1] == pairs[k1 + 1]);
        assert(tail[k2] == pairs[k2 + 1]);
    }
    if j == 0 {
        assert forall|k: int| 0 <= k < tail.len() implies resolve_name(
            arity,
            #[trigger] tail[k].0,
        ).unwrap() != i0 by {
            assert(tail[k] == pairs[k + 1]);
            assert(resolve_name(arity, pairs[0].0) != resolve_name(arity, pairs[k + 1].0));
        }
        lemma_fill_untouched(arity, acc2, tail, i0);
        assert(acc2[i0] == Some(pairs[0].1));
        assert(fill(arity, acc, pairs) == fill(arity, acc2, tail));
    } else {
        lemma_fill_hits(arity, acc2, tail, j - 1);
        assert(tail[j - 1] == pairs[j]);
    }
}

/// The completion scan reports the lowest absent ordinal.
proof fn lemma_finish_missing_from(acc: Seq<Option<Scalar>>, i: int, m: int)
    requires
        0 <= i <= m < acc.len(),
        acc[m] is None,
        forall|k: int| i <= k < m ==> (#[trigger] acc[k]) is Some,
    ensures
        finish_from(acc, i) == DecodeOutcome::Missing(axis_name(m)),
    decreases m - i,
{
    if i < m {
        lemma_finish_missing_from(acc, i + 1, m);
    }
}

/// With every ordinal present the completion scan succeeds with the
/// values in ordinal order.
proof fn lemma_finish_all_some(acc: Seq<Option<Scalar>>, i: int)
    requires
        0 <= i <= acc.len(),
        forall|k: int| i <= k < acc.len() ==> (#[trigger] acc[k]) is Some,
    ensures
        finish_from(acc, i) == DecodeOutcome::Done(
            acc.map_values(|o: Option<Scalar>| o.unwrap()),
        ),
    decreases acc.len() - i,
{
    if i < acc.len() {
        lemma_finish_all_some(acc, i + 1);
    }
}

// ---------------------------------------------------------------------
// Associative round trip.
// ---------------------------------------------------------------------

/// The associative rendering of any component sequence decodes back to
/// exactly that sequence: every name resolves to its own ordinal, no
/// ordinal repeats, none is absent.
pub proof fn lemma_assoc_round_trip(arity: int, s: Seq<Scalar>)
    requires
        2 <= arity <= 4,
        s.len() == arity,
    ensures
        assoc_spec(arity, assoc_encoding(s)) == DecodeOutcome::Done(s),
{
    let pairs = assoc_encoding(s);
    assert forall|j: int| 0 <= j < pairs.len() implies resolve_name(
        arity,
        #[trigger] pairs[j].0,
    ) == Some(j) by {
        lemma_resolve_axis(arity, j);
    }
    let acc = init_acc(arity);
    lemma_run_clean(arity, acc, pairs);
    let filled = fill(arity, acc, pairs);
    lemma_fill_len(arity, acc, pairs);
    assert forall|i: int| 0 <= i < arity implies (#[trigger] filled[i]) == Some(s[i]) by {
        lemma_fill_hits(arity, acc, pairs, i);
    }
    lemma_finish_all_some(filled, 0);
    assert(filled.map_values(|o: Option<Scalar>| o.unwrap()) =~= s);
}

/// Associative round trip for 2-vectors, bit for bit: decoding the
/// encoding comes to the vector's own components, and only the vector
/// itself flattens to them.
pub proof fn lemma_assoc_round_trip_vec2(v: Vec2)
    ensures
        assoc_spec(2, assoc_encoding(v.as_seq())) == DecodeOutcome::Done(v.as_seq()),
        forall|w: Vec2| #[trigger] w.as_seq() == v.as_seq() ==> w == v,
{
    lemma_assoc_round_trip(2, v.as_seq());
}

/// Associative round trip for 3-vectors, bit for bit.
pub proof fn lemma_assoc_round_trip_vec3(v: Vec3)
    ensures
        assoc_spec(3, assoc_encoding(v.as_seq())) == DecodeOutcome::Done(v.as_seq()),
        forall|w: Vec3| #[trigger] w.as_seq() == v.as_seq() ==> w == v,
{
    lemma_assoc_round_trip(3, v.as_seq());
}

/// Associative round trip for 4-vectors, bit for bit.
pub proof fn lemma_assoc_round_trip_vec4(v: Vec4)
    ensures
        assoc_spec(4, assoc_encoding(v.as_seq())) == DecodeOutcome::Done(v.as_seq()),
        forall|w: Vec4| #[trigger] w.as_seq() == v.as_seq() ==> w == v,
{
    lemma_assoc_round_trip(4, v.as_seq());
}

/// Order independence of associative mode: any input whose names
/// resolve to distinct ordinals and cover every ordinal decodes
/// successfully — in whatever order the pairs arrive — and each decoded
/// component is the value paired with its ordinal's name.
pub proof fn lemma_assoc_order_independent(arity: int, pairs: Seq<(Seq<char>, Scalar)>)
    requires
        2 <= arity <= 4,
        all_resolve(arity, pairs),
        distinct_ordinals(arity, pairs),
        forall|i: int| 0 <= i < arity ==> #[trigger] covers(arity, pairs, i),
    ensures
        assoc_spec(arity, pairs) is Done,
        assoc_spec(arity, pairs) matches DecodeOutcome::Done(vals) ==> vals.len() == arity
            && forall|j: int| 0 <= j < pairs.len() ==> vals[resolve_name(
            arity,
            #[trigger] pairs[j].0,
        ).unwrap()] == pairs[j].1,
{
    let acc = init_acc(arity);
    assert forall|j: int| 0 <= j < pairs.len() implies acc[resolve_name(
        arity,
        #[trigger] pairs[j].0,
    ).unwrap()] is None by {
        assert(resolve_name(arity, pairs[j].0) is Some);
    }
    lemma_run_clean(arity, acc, pairs);
    let filled = fill(arity, acc, pairs);
    lemma_fill_len(arity, acc, pairs);
    assert forall|i: int| 0 <= i < arity implies (#[trigger] filled[i]) is Some by {
        assert(covers(arity, pairs, i));
        let j = choose|j: int|
            0 <= j < pairs.len() && resolve_name(arity, #[trigger] pairs[j].0) == Some(i);
        lemma_fill_hits(arity, acc, pairs, j);
    }
    lemma_finish_all_some(filled, 0);
    let vals = filled.map_values(|o: Option<Scalar>| o.unwrap());
    assert forall|j: int| 0 <= j < pairs.len() implies vals[resolve_name(
        arity,
        #[trigger] pairs[j].0,
    ).unwrap()] == pairs[j].1 by {
        lemma_fill_hits(arity, acc, pairs, j);
    }
}

// ---------------------------------------------------------------------
// Error laws of the associative decoder.
// ---------------------------------------------------------------------

/// Helper for the duplicate law, generalized over the accumulator: if
/// the pairs before `j2` resolve to fresh, distinct ordinals, and the
/// ordinal of `j2` is already taken — by the accumulator or by an
/// earlier pair — the machine stops at `j2` with its name.
proof fn lemma_run_duplicate(
    arity: int,
    acc: Seq<Option<Scalar>>,
    pairs: Seq<(Seq<char>, Scalar)>,
    j2: int,
)
    requires
        acc.len() == arity,
        0 <= j2 < pairs.len(),
        forall|k: int| 0 <= k <= j2 ==> resolve_name(arity, #[trigger] pairs[k].0) is Some,
        forall|k: int| 0 <= k < j2
            ==> acc[resolve_name(arity, #[trigger] pairs[k].0).unwrap()] is None,
        forall|k1: int, k2: int| 0 <= k1 < k2 < j2 ==> resolve_name(
            arity,
            #[trigger] pairs[k1].0,
        ) != resolve_name(arity, #[trigger] pairs[k2].0),
        acc[resolve_name(arity, pairs[j2].0).unwrap()] is Some || exists|j1: int|
            0 <= j1 < j2 && resolve_name(arity, #[trigger] pairs[j1].0)
                == resolve_name(arity, pairs[j2].0),
    ensures
        assoc_run(arity, acc, pairs) == DecodeOutcome::Duplicate(pairs[j2].0),
    decreases j2,
{
    if j2 == 0 {
        assert(acc[resolve_name(arity, pairs[0].0).unwrap()] is Some);
    } else {
        let i0 = resolve_name(arity, pairs[0].0).unwrap();
        assert(resolve_name(arity, pairs[0].0) is Some);
        assert(acc[i0] is None);
        let acc2 = acc.update(i0, Some(pairs[0].1));
        let tail = pairs.drop_first();
        assert forall|k: int| 0 <= k <= j2 - 1 implies resolve_name(
            arity,
            #[trigger] tail[k].0,
        ) is Some by {
            assert(tail[k] == pairs[k + 1]);
        }
        assert forall|k: int| 0 <= k < j2 - 1 implies acc2[resolve_name(
            arity,
            #[trigger] tail[k].0,
        ).unwrap()] is None by {
            assert(tail[k] == pairs[k + 1]);
            assert(resolve_name(arity, pairs[0].0) != resolve_name(arity, pairs[k + 1].0));
        }
        assert forall|k1: int, k2: int| 0 <= k1 < k2 < j2 - 1 implies resolve_name(
            arity,
            #[trigger] tail[k1].0,
        ) != resolve_name(arity, #[trigger] tail[k2].0) by {
            assert(tail[k1] == pairs[k1 + 1]);
            assert(tail[k2] == pairs[k2 + 1]);
        }
        assert(tail[j2 - 1] == pairs[j2]);
        if acc[resolve_name(arity, pairs[j2].0).unwrap()] is Some {
            assert(acc2[resolve_name(arity, tail[j2 - 1].0).unwrap()] is Some);
        } else {
            let j1 = choose|j1: int|
                0 <= j1 < j2 && resolve_name(arity, #[trigger] pairs[j1].0)
                    == resolve_name(arity, pairs[j2].0);
            if j1 == 0 {
                assert(resolve_name(arity, tail[j2 - 1].0).unwrap() == i0);
                assert(acc2[resolve_name(arity, tail[j2 - 1].0).unwrap()] is Some);
            } else {
                assert(tail[j1 - 1] == pairs[j1]);
                assert(resolve_name(arity, tail[j1 - 1].0) == resolve_name(
                    arity,
                    tail[j2 - 1].0,
                ));
            }
        }
        lemma_run_duplicate(arity, acc2, tail, j2 - 1);
    }
}

/// Duplicate law: on an input whose pairs before `j2` resolve to
/// distinct ordinals, and whose pair `j2` repeats the ordinal of the
/// earlier pair `j1`, the decode fails with that pair's name — whatever
/// the two paired values are.
pub proof fn lemma_duplicate_field(
    arity: int,
    pairs: Seq<(Seq<char>, Scalar)>,
    j1: int,
    j2: int,
)
    requires
        2 <= arity <= 4,
        0 <= j1 < j2 < pairs.len(),
        forall|k: int| 0 <= k <= j2 ==> resolve_name(arity, #[trigger] pairs[k].0) is Some,
        forall|k1: int, k2: int| 0 <= k1 < k2 < j2 ==> resolve_name(
            arity,
            #[trigger] pairs[k1].0,
        ) != resolve_name(arity, #[trigger] pairs[k2].0),
        resolve_name(arity, pairs[j1].0) == resolve_name(arity, pairs[j2].0),
    ensures
        assoc_spec(arity, pairs) == DecodeOutcome::Duplicate(pairs[j2].0),
{
    let acc = init_acc(arity);
    assert forall|k: int| 0 <= k < j2 implies acc[resolve_name(
        arity,
        #[trigger] pairs[k].0,
    ).unwrap()] is None by {
        assert(resolve_name(arity, pairs[k].0) is Some);
    }
    lemma_run_duplicate(arity, acc, pairs, j2);
}

/// Helper for the unknown law, generalized over the accumulator.
proof fn lemma_run_unknown(
    arity: int,
    acc: Seq<Option<Scalar>>,
    pairs: Seq<(Seq<char>, Scalar)>,
    j: int,
)
    requires
        acc.len() == arity,
        0 <= j < pairs.len(),
        resolve_name(arity, pairs[j].0) is None,
        forall|k: int| 0 <= k < j ==> resolve_name(arity, #[trigger] pairs[k].0) is Some,
        forall|k: int| 0 <= k < j
            ==> acc[resolve_name(arity, #[trigger] pairs[k].0).unwrap()] is None,
        forall|k1: int, k2: int| 0 <= k1 < k2 < j ==> resolve_name(
            arity,
            #[trigger] pairs[k1].0,
        ) != resolve_name(arity, #[trigger] pairs[k2].0),
    ensures
        assoc_run(arity, acc, pairs) == DecodeOutcome::Unknown(pairs[j].0),
    decreases j,
{
    if j > 0 {
        let i0 = resolve_name(arity, pairs[0].0).unwrap();
        assert(resolve_name(arity, pairs[0].0) is Some);
        assert(acc[i0] is None);
        let acc2 = acc.update(i0, Some(pairs[0].1));
        let tail = pairs.drop_first();
        assert forall|k: int| 0 <= k < j - 1 implies resolve_name(
            arity,
            #[trigger] tail[k].0,
        ) is Some && acc2[resolve_name(arity, tail[k].0).unwrap()] is None by {
            assert(tail[k] == pairs[k + 1]);
            assert(resolve_name(arity, pairs[0].0) != resolve_name(arity, pairs[k + 1].0));
        }
        assert forall|k1: int, k2: int| 0 <= k1 < k2 < j - 1 implies resolve_name(
            arity,
            #[trigger] tail[k1].0,
        ) != resolve_name(arity, #[trigger] tail[k2].0) by {
            assert(tail[k1] == pairs[k1 + 1]);
            assert(tail[k2] == pairs[k2 + 1]);
        }
        assert(tail[j - 1] == pairs[j]);
        lemma_run_unknown(arity, acc2, tail, j - 1);
    }
}

/// Unknown law: on an input whose pairs before `j` resolve to distinct
/// ordinals and whose pair `j` names a field outside the table, the
/// decode fails with that name.
pub proof fn lemma_unknown_field(arity: int, pairs: Seq<(Seq<char>, Scalar)>, j: int)
    requires
        2 <= arity <= 4,
        0 <= j < pairs.len(),
        resolve_name(arity, pairs[j].0) is None,
        forall|k: int| 0 <= k < j ==> resolve_name(arity, #[trigger] pairs[k].0) is Some,
        forall|k1: int, k2: int| 0 <= k1 < k2 < j ==> resolve_name(
            arity,
            #[trigger] pairs[k1].0,
        ) != resolve_name(arity, #[trigger] pairs[k2].0),
    ensures
        assoc_spec(arity, pairs) == DecodeOutcome::Unknown(pairs[j].0),
{
    let acc = init_acc(arity);
    assert forall|k: int| 0 <= k < j implies acc[resolve_name(
        arity,
        #[trigger] pairs[k].0,
    ).unwrap()] is None by {
        assert(resolve_name(arity, pairs[k].0) is Some);
    }
    lemma_run_unknown(arity, acc, pairs, j);
}

/// Helper: with an unresolvable name anywhere in the input, the machine
/// never completes, whatever the accumulator held.
proof fn lemma_run_unknown_not_done(
    arity: int,
    acc: Seq<Option<Scalar>>,
    pairs: Seq<(Seq<char>, Scalar)>,
    j: int,
)
    requires
        0 <= j < pairs.len(),
        resolve_name(arity, pairs[j].0) is None,
    ensures
        !(assoc_run(arity, acc, pairs) is Done),
    decreases pairs.len(),
{
    match resolve_name(arity, pairs[0].0) {
        Option::None => {},
        Option::Some(i) => {
            assert(j != 0);
            if !(acc[i] is Some) {
                let tail = pairs.drop_first();
                assert(tail[j - 1] == pairs[j]);
                lemma_run_unknown_not_done(arity, acc.update(i, Some(pairs[0].1)), tail, j - 1);
            }
        },
    }
}

/// A field name outside the table is never silently ignored: an input
/// that carries one cannot decode successfully, wherever the name
/// stands and whatever else the input holds.
pub proof fn lemma_unknown_never_ignored(arity: int, pairs: Seq<(Seq<char>, Scalar)>, j: int)
    requires
        0 <= j < pairs.len(),
        resolve_name(arity, pairs[j].0) is None,
    ensures
        !(assoc_spec(arity, pairs) is Done),
{
    lemma_run_unknown_not_done(arity, init_acc(arity), pairs, j);
}

/// Some pair of the input resolves to ordinal `i`.
pub open spec fn covers(arity: int, pairs: Seq<(Seq<char>, Scalar)>, i: int) -> bool {
    exists|j: int| 0 <= j < pairs.len() && resolve_name(arity, #[trigger] pairs[j].0) == Some(i)
}

/// Missing law: on a clean input that never names the in-range ordinal
/// `m` but names every ordinal below it, the decode fails naming `m`'s
/// field — however many other fields are present.
pub proof fn lemma_missing_field(arity: int, pairs: Seq<(Seq<char>, Scalar)>, m: int)
    requires
        2 <= arity <= 4,
        all_resolve(arity, pairs),
        distinct_ordinals(arity, pairs),
        0 <= m < arity,
        forall|j: int| 0 <= j < pairs.len()
            ==> resolve_name(arity, #[trigger] pairs[j].0) != Some(m),
        forall|i: int| 0 <= i < m ==> #[trigger] covers(arity, pairs, i),
    ensures
        assoc_spec(arity, pairs) == DecodeOutcome::Missing(axis_name(m)),
{
    let acc = init_acc(arity);
    assert forall|j: int| 0 <= j < pairs.len() implies acc[resolve_name(
        arity,
        #[trigger] pairs[j].0,
    ).unwrap()] is None by {
        assert(resolve_name(arity, pairs[j].0) is Some);
    }
    lemma_run_clean(arity, acc, pairs);
    let filled = fill(arity, acc, pairs);
    lemma_fill_len(arity, acc, pairs);
    assert forall|j: int| 0 <= j < pairs.len() implies resolve_name(
        arity,
        #[trigger] pairs[j].0,
    ).unwrap() != m by {
        assert(resolve_name(arity, pairs[j].0) is Some);
        assert(resolve_name(arity, pairs[j].0) != Some(m));
    }
    lemma_fill_untouched(arity, acc, pairs, m);
    assert(filled[m] is None);
    assert forall|i: int| 0 <= i < m implies (#[trigger] filled[i]) is Some by {
        assert(covers(arity, pairs, i));
        let j = choose|j: int|
            0 <= j < pairs.len() && resolve_name(arity, #[trigger] pairs[j].0) == Some(i);
        lemma_fill_hits(arity, acc, pairs, j);
    }
    lemma_finish_missing_from(filled, 0, m);
}

} // verus!
