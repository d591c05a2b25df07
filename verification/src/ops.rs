use vstd::prelude::*;

verus! {

/// Holds when `f` may be called on every pair of scalars. The kernel takes its
/// scalar arithmetic as closures, and this is the only demand it places on them.
pub open spec fn accepts_pairs<T, F: Fn(T, T) -> T>(f: F) -> bool {
    forall|x: T, y: T| #[trigger] call_requires(f, (x, y))
}

/// Holds when `f` may be called on every single scalar.
pub open spec fn accepts_each<T, F: Fn(T) -> T>(f: F) -> bool {
    forall|x: T| #[trigger] call_requires(f, (x,))
}

/// Holds when `r` is an elementwise image of `a` and `b` under `f`: the lengths
/// agree, and each element of `r` is a result `f` can return on the
/// corresponding elements of `a` and `b`.
pub open spec fn elementwise<T, F: Fn(T, T) -> T>(f: F, a: Seq<T>, b: Seq<T>, r: Seq<T>) -> bool {
    &&& r.len() == a.len()
    &&& forall|i: int| 0 <= i < a.len() ==> call_ensures(f, (a[i], b[i]), #[trigger] r[i])
}

/// Holds when `r` is `a` with every element combined with the scalar `k` under `f`.
pub open spec fn scaled<T, F: Fn(T, T) -> T>(f: F, a: Seq<T>, k: T, r: Seq<T>) -> bool {
    &&& r.len() == a.len()
    &&& forall|i: int| 0 <= i < a.len() ==> call_ensures(f, (a[i], k), #[trigger] r[i])
}

/// Holds when `r` can be the left-to-right contraction of `a` against `b`:
/// corresponding elements are combined under `mul`, and the products are folded
/// with `add` starting from `zero`. This is the shape shared by the dot product
/// and by each entry of a matrix product.
pub open spec fn contracted<T, MF: Fn(T, T) -> T, AF: Fn(T, T) -> T>(
    mul: MF,
    add: AF,
    zero: T,
    a: Seq<T>,
    b: Seq<T>,
    r: T,
) -> bool
    decreases a.len(),
{
    if a.len() == 0 {
        r == zero
    } else {
        exists|s: T, p: T|
            {
                &&& call_ensures(mul, (a.last(), b.last()), p)
                &&& contracted(mul, add, zero, a.drop_last(), b.drop_last(), s)
                &&& #[trigger] call_ensures(add, (s, p), r)
            }
    }
}

/// The sequence of scalar rows a vector of rows stands for.
pub open spec fn rows_view<T>(rows: Seq<Vec<T>>) -> Seq<Seq<T>> {
    rows.map_values(|r: Vec<T>| r@)
}

/// Holds when some row breaks rectangularity: its length differs from the
/// first row's.
pub open spec fn ragged<T>(rows: Seq<Seq<T>>) -> bool {
    exists|i: int| 0 <= i < rows.len() && (#[trigger] rows[i]).len() != rows[0].len()
}

/// Holds when a sequence of rows forms a matrix the kernel accepts: at least
/// one row, and every row as long as the first.
pub open spec fn well_formed_rows<T>(rows: Seq<Seq<T>>) -> bool {
    rows.len() > 0 && !ragged(rows)
}

/// Column `j` of a row-major rectangle of scalars.
pub open spec fn column<T>(rows: Seq<Seq<T>>, j: int) -> Seq<T> {
    Seq::new(rows.len(), |i: int| rows[i][j])
}

/// `elementwise`, lifted row by row to rectangles of scalars.
pub open spec fn rows_elementwise<T, F: Fn(T, T) -> T>(
    f: F,
    a: Seq<Seq<T>>,
    b: Seq<Seq<T>>,
    r: Seq<Seq<T>>,
) -> bool {
    &&& r.len() == a.len()
    &&& forall|i: int| 0 <= i < a.len() ==> elementwise(f, a[i], b[i], #[trigger] r[i])
}

/// `scaled`, lifted row by row to rectangles of scalars.
pub open spec fn rows_scaled<T, F: Fn(T, T) -> T>(
    f: F,
    a: Seq<Seq<T>>,
    k: T,
    r: Seq<Seq<T>>,
) -> bool {
    &&& r.len() == a.len()
    &&& forall|i: int| 0 <= i < a.len() ==> scaled(f, a[i], k, #[trigger] r[i])
}

/// Extending both operand sequences by one element extends a contraction by one
/// multiply-and-accumulate step.
pub proof fn lemma_contracted_step<T, MF: Fn(T, T) -> T, AF: Fn(T, T) -> T>(
    mul: MF,
    add: AF,
    zero: T,
    a: Seq<T>,
    b: Seq<T>,
    s: T,
    p: T,
    r: T,
)
    requires
        a.len() > 0,
        contracted(mul, add, zero, a.drop_last(), b.drop_last(), s),
        call_ensures(mul, (a.last(), b.last()), p),
        call_ensures(add, (s, p), r),
    ensures
        contracted(mul, add, zero, a, b, r),
{
}

/// Splits a non-empty contraction into the contraction of the prefix and the
/// final multiply-and-accumulate step, returning the intermediate sum and
/// product: the way a caller takes a contraction apart again.
pub proof fn lemma_contracted_unstep<T, MF: Fn(T, T) -> T, AF: Fn(T, T) -> T>(
    mul: MF,
    add: AF,
    zero: T,
    a: Seq<T>,
    b: Seq<T>,
    r: T,
) -> (w: (T, T))
    requires
        a.len() > 0,
        contracted(mul, add, zero, a, b, r),
    ensures
        contracted(mul, add, zero, a.drop_last(), b.drop_last(), w.0),
        call_ensures(mul, (a.last(), b.last()), w.1),
        call_ensures(add, (w.0, w.1), r),
{
    let (s, p) = choose|s: T, p: T|
        {
            &&& call_ensures(mul, (a.last(), b.last()), p)
            &&& contracted(mul, add, zero, a.drop_last(), b.drop_last(), s)
            &&& #[trigger] call_ensures(add, (s, p), r)
        };
    (s, p)
}

} // verus!
