//! The less-than operator of the expression layer, on binary values and on
//! columns of booleans.

use vstd::prelude::*;

verus! {

/// Whether `l` comes before `r` in the order of byte strings: at the first
/// place where they differ the smaller byte decides, and a proper prefix
/// comes before what it is a prefix of.
pub open spec fn bytes_lt(l: Seq<u8>, r: Seq<u8>) -> bool
    decreases l.len(),
{
    if r.len() == 0 {
        false
    } else if l.len() == 0 {
        true
    } else if l[0] != r[0] {
        l[0] < r[0]
    } else {
        bytes_lt(l.skip(1), r.skip(1))
    }
}

/// Less-than on booleans: `false` comes before `true`.
pub open spec fn bool_lt(a: bool, b: bool) -> bool {
    !a && b
}

/// No byte string comes before itself.
pub proof fn lemma_bytes_lt_irreflexive(l: Seq<u8>)
    ensures
        !bytes_lt(l, l),
    decreases l.len(),
{
    if l.len() > 0 {
        lemma_bytes_lt_irreflexive(l.skip(1));
    }
}

/// Of two byte strings at most one comes before the other.
pub proof fn lemma_bytes_lt_asymmetric(l: Seq<u8>, r: Seq<u8>)
    requires
        bytes_lt(l, r),
    ensures
        !bytes_lt(r, l),
    decreases l.len(),
{
    if l.len() > 0 && r.len() > 0 && l[0] == r[0] {
        lemma_bytes_lt_asymmetric(l.skip(1), r.skip(1));
    }
}

#[derive(Clone)]
pub struct ComparisonLtImpl;

impl ComparisonLtImpl {
    /// Less-than on two binary values.
    pub fn eval_binary(l: &[u8], r: &[u8]) -> (lt: bool)
        ensures
            lt == bytes_lt(l@, r@),
    {
        let mut i: usize = 0;
        proof {
            assert(l@.skip(0) =~= l@);
            assert(r@.skip(0) =~= r@);
        }
        while i < l.len() && i < r.len()
            invariant
                i <= l@.len(),
                i <= r@.len(),
                bytes_lt(l@, r@) == bytes_lt(l@.skip(i as int), r@.skip(i as int)),
            decreases l@.len() - i,
        {
            if l[i] != r[i] {
                return l[i] < r[i];
            }
            proof {
                assert(l@.skip(i as int).skip(1) =~= l@.skip(i as int + 1));
                assert(r@.skip(i as int).skip(1) =~= r@.skip(i as int + 1));
            }
            i = i + 1;
        }
        l.len() < r.len()
    }
}

#[derive(Clone)]
pub struct BooleanSimdLt;

impl BooleanSimdLt {
    /// Less-than of two columns, row by row.
    pub fn vector_vector(lhs: &Vec<bool>, rhs: &Vec<bool>) -> (r: Vec<bool>)
        requires
            lhs@.len() == rhs@.len(),
        ensures
            r@ == Seq::new(lhs@.len(), |i: int| bool_lt(lhs@[i], rhs@[i])),
    {
        let mut out: Vec<bool> = Vec::new();
        let mut i: usize = 0;
        while i < lhs.len()
            invariant
                lhs@.len() == rhs@.len(),
                i <= lhs@.len(),
                out@.len() == i,
                forall|j: int| 0 <= j < i ==> out@[j] == bool_lt(lhs@[j], rhs@[j]),
            decreases lhs@.len() - i,
        {
            out.push(!lhs[i] && rhs[i]);
            i = i + 1;
        }
        assert(out@ =~= Seq::new(lhs@.len(), |i: int| bool_lt(lhs@[i], rhs@[i])));
        out
    }

    /// Less-than of each row of a column and one value.
    pub fn vector_const(lhs: &Vec<bool>, rhs: bool) -> (r: Vec<bool>)
        ensures
            r@ == Seq::new(lhs@.len(), |i: int| bool_lt(lhs@[i], rhs)),
    {
        let mut out: Vec<bool> = Vec::new();
        let mut i: usize = 0;
        while i < lhs.len()
            invariant
                i <= lhs@.len(),
                out@.len() == i,
                forall|j: int| 0 <= j < i ==> out@[j] == bool_lt(lhs@[j], rhs),
            decreases lhs@.len() - i,
        {
            if rhs {
                out.push(!lhs[i]);
            } else {
                out.push(false);
            }
            i = i + 1;
        }
        assert(out@ =~= Seq::new(lhs@.len(), |i: int| bool_lt(lhs@[i], rhs)));
        out
    }

    /// Less-than of one value and each row of a column.
    pub fn const_vector(lhs: bool, rhs: &Vec<bool>) -> (r: Vec<bool>)
        ensures
            r@ == Seq::new(rhs@.len(), |i: int| bool_lt(lhs, rhs@[i])),
    {
        let mut out: Vec<bool> = Vec::new();
        let mut i: usize = 0;
        while i < rhs.len()
            invariant
                i <= rhs@.len(),
                out@.len() == i,
                forall|j: int| 0 <= j < i ==> out@[j] == bool_lt(lhs, rhs@[j]),
            decreases rhs@.len() - i,
        {
            out.push(!lhs && rhs[i]);
            i = i + 1;
        }
        assert(out@ =~= Seq::new(rhs@.len(), |i: int| bool_lt(lhs, rhs@[i])));
        out
    }
}

} // verus!
