use vstd::prelude::*;

use crate::ops::contracted;
use crate::ops::elementwise;
use crate::ops::rows_elementwise;
use crate::ops::rows_scaled;
use crate::ops::scaled;

verus! {

/// Holds when `f` is deterministic as a relation: on equal arguments it admits
/// only one result.
pub open spec fn deterministic<T, F: Fn(T, T) -> T>(f: F) -> bool {
    forall|x: T, y: T, r1: T, r2: T|
        #[trigger] call_ensures(f, (x, y), r1) && #[trigger] call_ensures(f, (x, y), r2) ==> r1
            == r2
}

/// Holds when `f` is commutative as a relation: every result it can return on
/// `(x, y)` it can also return on `(y, x)`.
pub open spec fn commutative<T, F: Fn(T, T) -> T>(f: F) -> bool {
    forall|x: T, y: T, r: T| #[trigger] call_ensures(f, (x, y), r) ==> call_ensures(f, (y, x), r)
}

/// Holds when combining any scalar with `k` under `f` returns that scalar
/// unchanged: `k` is a right identity for `f`.
pub open spec fn right_identity<T, F: Fn(T, T) -> T>(f: F, k: T) -> bool {
    forall|x: T, r: T| #[trigger] call_ensures(f, (x, k), r) ==> r == x
}

/// Holds when `subf` undoes `addf`: whatever `addf` may return on `(x, y)`,
/// applying `subf` to that result and `y` returns `x` again.
pub open spec fn cancels<T, AF: Fn(T, T) -> T, SF: Fn(T, T) -> T>(addf: AF, subf: SF) -> bool {
    forall|x: T, y: T, s: T, d: T|
        #[trigger] call_ensures(addf, (x, y), s) && #[trigger] call_ensures(subf, (s, y), d)
            ==> d == x
}

/// Commutativity of vector addition, lifted from the scalars: when the scalar
/// closure is commutative and deterministic, adding `a` to `b` and adding `b`
/// to `a` elementwise give the same sequence.
pub proof fn lemma_add_vectors_comm<T, F: Fn(T, T) -> T>(
    f: F,
    a: Seq<T>,
    b: Seq<T>,
    r1: Seq<T>,
    r2: Seq<T>,
)
    requires
        a.len() == b.len(),
        commutative(f),
        deterministic(f),
        elementwise(f, a, b, r1),
        elementwise(f, b, a, r2),
    ensures
        r1 == r2,
{
    assert forall|i: int| 0 <= i < r1.len() implies r1[i] == r2[i] by {
        assert(call_ensures(f, (a[i], b[i]), r1[i]));
        assert(call_ensures(f, (b[i], a[i]), r2[i]));
        assert(call_ensures(f, (a[i], b[i]), r2[i]));
    }
    assert(r1 =~= r2);
}

/// Commutativity of matrix addition, lifted row by row from the scalars: on
/// operands of one shape, with a commutative and deterministic scalar closure,
/// the two orders of addition give the same rows.
pub proof fn lemma_add_matrices_comm<T, F: Fn(T, T) -> T>(
    f: F,
    a: Seq<Seq<T>>,
    b: Seq<Seq<T>>,
    r1: Seq<Seq<T>>,
    r2: Seq<Seq<T>>,
)
    requires
        a.len() == b.len(),
        forall|i: int| 0 <= i < a.len() ==> (#[trigger] a[i]).len() == b[i].len(),
        commutative(f),
        deterministic(f),
        rows_elementwise(f, a, b, r1),
        rows_elementwise(f, b, a, r2),
    ensures
        r1 == r2,
{
    assert forall|i: int| 0 <= i < r1.len() implies r1[i] == r2[i] by {
        lemma_add_vectors_comm(f, a[i], b[i], r1[i], r2[i]);
    }
    assert(r1 =~= r2);
}

/// Scaling by a right identity of the scalar closure is the identity on
/// vectors: the result is the original sequence.
pub proof fn lemma_scalar_mul_vector_identity<T, F: Fn(T, T) -> T>(f: F, a: Seq<T>, k: T, r: Seq<T>)
    requires
        right_identity(f, k),
        scaled(f, a, k, r),
    ensures
        r == a,
{
    assert(r =~= a);
}

/// Scaling by a right identity of the scalar closure is the identity on
/// matrices: every row comes back unchanged.
pub proof fn lemma_scalar_mul_matrix_identity<T, F: Fn(T, T) -> T>(
    f: F,
    a: Seq<Seq<T>>,
    k: T,
    r: Seq<Seq<T>>,
)
    requires
        right_identity(f, k),
        rows_scaled(f, a, k, r),
    ensures
        r == a,
{
    assert forall|i: int| 0 <= i < r.len() implies r[i] == a[i] by {
        lemma_scalar_mul_vector_identity(f, a[i], k, r[i]);
    }
    assert(r =~= a);
}

/// Adding a vector of identity elements changes nothing: when every entry of
/// `z` is a right identity of the scalar closure, the elementwise sum of `a`
/// and `z` is `a` itself.
pub proof fn lemma_add_vector_identity<T, F: Fn(T, T) -> T>(
    f: F,
    a: Seq<T>,
    z: Seq<T>,
    zk: T,
    r: Seq<T>,
)
    requires
        z.len() == a.len(),
        forall|i: int| 0 <= i < z.len() ==> z[i] == zk,
        right_identity(f, zk),
        elementwise(f, a, z, r),
    ensures
        r == a,
{
    assert(r =~= a);
}

/// Adding the matrix of identity elements of matching shape changes nothing:
/// the elementwise sum of `a` and that matrix is `a` itself.
pub proof fn lemma_add_matrix_identity<T, F: Fn(T, T) -> T>(
    f: F,
    a: Seq<Seq<T>>,
    z: Seq<Seq<T>>,
    zk: T,
    r: Seq<Seq<T>>,
)
    requires
        z.len() == a.len(),
        forall|i: int| 0 <= i < z.len() ==> (#[trigger] z[i]).len() == a[i].len(),
        forall|i: int, j: int| 0 <= i < z.len() && 0 <= j < z[i].len() ==> z[i][j] == zk,
        right_identity(f, zk),
        rows_elementwise(f, a, z, r),
    ensures
        r == a,
{
    assert forall|i: int| 0 <= i < r.len() implies r[i] == a[i] by {
        lemma_add_vector_identity(f, a[i], z[i], zk, r[i]);
    }
    assert(r =~= a);
}

/// Subtraction inverts addition on vectors: when the scalar closures cancel,
/// adding `b` and then subtracting `b` elementwise returns the original `a`.
pub proof fn lemma_add_sub_vectors_inverse<T, AF: Fn(T, T) -> T, SF: Fn(T, T) -> T>(
    addf: AF,
    subf: SF,
    a: Seq<T>,
    b: Seq<T>,
    s: Seq<T>,
    d: Seq<T>,
)
    requires
        a.len() == b.len(),
        cancels(addf, subf),
        elementwise(addf, a, b, s),
        elementwise(subf, s, b, d),
    ensures
        d == a,
{
    assert(d =~= a);
}

/// Subtraction inverts addition on matrices: adding `b` and then subtracting
/// `b` row by row returns the original `a`.
pub proof fn lemma_add_sub_matrices_inverse<T, AF: Fn(T, T) -> T, SF: Fn(T, T) -> T>(
    addf: AF,
    subf: SF,
    a: Seq<Seq<T>>,
    b: Seq<Seq<T>>,
    s: Seq<Seq<T>>,
    d: Seq<Seq<T>>,
)
    requires
        a.len() == b.len(),
        forall|i: int| 0 <= i < a.len() ==> (#[trigger] a[i]).len() == b[i].len(),
        cancels(addf, subf),
        rows_elementwise(addf, a, b, s),
        rows_elementwise(subf, s, b, d),
    ensures
        d == a,
{
    assert forall|i: int| 0 <= i < d.len() implies d[i] == a[i] by {
        lemma_add_sub_vectors_inverse(addf, subf, a[i], b[i], s[i], d[i]);
    }
    assert(d =~= a);
}

/// A contraction under deterministic scalar closures is itself deterministic:
/// two results of contracting the same operands are equal.
pub proof fn lemma_contracted_deterministic<T, MF: Fn(T, T) -> T, AF: Fn(T, T) -> T>(
    mulf: MF,
    addf: AF,
    zero: T,
    a: Seq<T>,
    b: Seq<T>,
    r1: T,
    r2: T,
)
    requires
        deterministic(mulf),
        deterministic(addf),
        contracted(mulf, addf, zero, a, b, r1),
        contracted(mulf, addf, zero, a, b, r2),
    ensures
        r1 == r2,
    decreases a.len(),
{
    if a.len() > 0 {
        let (s1, p1) = crate::ops::lemma_contracted_unstep(mulf, addf, zero, a, b, r1);
        let (s2, p2) = crate::ops::lemma_contracted_unstep(mulf, addf, zero, a, b, r2);
        lemma_contracted_deterministic(mulf, addf, zero, a.drop_last(), b.drop_last(), s1, s2);
    }
}

/// The scalar `norm` hands to its square-root closure is the dot product of
/// the vector with itself: under deterministic scalar closures, the
/// contraction named in `norm`'s contract and a result of `dot` on `(v, v)`
/// are one value.
pub proof fn lemma_norm_squares_dot<T, MF: Fn(T, T) -> T, AF: Fn(T, T) -> T>(
    mulf: MF,
    addf: AF,
    zero: T,
    v: Seq<T>,
    dot_value: T,
    norm_sum: T,
)
    requires
        deterministic(mulf),
        deterministic(addf),
        contracted(mulf, addf, zero, v, v, dot_value),
        contracted(mulf, addf, zero, v, v, norm_sum),
    ensures
        dot_value == norm_sum,
{
    lemma_contracted_deterministic(mulf, addf, zero, v, v, dot_value, norm_sum);
}

} // verus!
