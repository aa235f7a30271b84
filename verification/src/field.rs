//! The field table and resolver.
//!
//! Named-field aggregates (the vectors) use the axis names `x`, `y`, `z`,
//! `w`, in that ordinal order. The table is a closed enumeration: a name
//! outside it does not resolve, which is what makes an unknown field a
//! hard error for the decoder.

use vstd::prelude::*;

verus! {

/// The field name that belongs to ordinal `i` of a vector.
pub open spec fn axis_name(i: int) -> Seq<char> {
    if i == 0 {
        seq!['x']
    } else if i == 1 {
        seq!['y']
    } else if i == 2 {
        seq!['z']
    } else {
        seq!['w']
    }
}

/// Where `name` stands in the field table of a vector of `arity`
/// components: its ordinal, or `None` for a name outside the table.
pub open spec fn resolve_name(arity: int, name: Seq<char>) -> Option<int> {
    if 0 < arity && name == axis_name(0) {
        Some(0int)
    } else if 1 < arity && name == axis_name(1) {
        Some(1int)
    } else if 2 < arity && name == axis_name(2) {
        Some(2int)
    } else if 3 < arity && name == axis_name(3) {
        Some(3int)
    } else {
        None
    }
}

/// Axis names are pairwise distinct, so each one resolves to its own
/// ordinal.
pub proof fn lemma_resolve_axis(arity: int, i: int)
    requires
        0 <= i < arity <= 4,
    ensures
        resolve_name(arity, axis_name(i)) == Some(i),
{
    assert(axis_name(0)[0] == 'x');
    assert(axis_name(1)[0] == 'y');
    assert(axis_name(2)[0] == 'z');
    assert(axis_name(3)[0] == 'w');
}

/// The field name of ordinal `i`, as a `String` for callers and error
/// values.
pub fn axis_field(i: usize) -> (s: String)
    requires
        i < 4,
    ensures
        s@ == axis_name(i as int),
{
    proof {
        reveal_strlit("x");
        reveal_strlit("y");
        reveal_strlit("z");
        reveal_strlit("w");
    }
    if i == 0 {
        let s = "x".to_owned();
        proof {
            assert(s@ =~= axis_name(0));
        }
        s
    } else if i == 1 {
        let s = "y".to_owned();
        proof {
            assert(s@ =~= axis_name(1));
        }
        s
    } else if i == 2 {
        let s = "z".to_owned();
        proof {
            assert(s@ =~= axis_name(2));
        }
        s
    } else {
        let s = "w".to_owned();
        proof {
            assert(s@ =~= axis_name(3));
        }
        s
    }
}

/// The field resolver: look `name` up in the field table of a vector of
/// `arity` components.
pub fn resolve_field(arity: usize, name: &String) -> (r: Option<usize>)
    requires
        2 <= arity <= 4,
    ensures
        match r {
            Some(i) => 0 <= i < arity && resolve_name(arity as int, name@) == Some(i as int),
            None => resolve_name(arity as int, name@) is None,
        },
{
    let mut i: usize = 0;
    while i < arity
        invariant
            2 <= arity <= 4,
            i <= arity,
            forall|k: int| 0 <= k < i ==> name@ != axis_name(k),
        decreases arity - i,
    {
        let axis = axis_field(i);
        if *name == axis {
            return Some(i);
        }
        i += 1;
    }
    None
}

} // verus!
