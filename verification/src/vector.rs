use vstd::prelude::*;
use vstd::pervasive::unreached;

use crate::errors::LinAlgError;
use crate::ops::accepts_each;
use crate::ops::accepts_pairs;
use crate::ops::contracted;
use crate::ops::elementwise;
use crate::ops::scaled;

verus! {

/// A fixed-length coordinate tuple: an ordered sequence of scalars. Every
/// operation returns a fresh vector and leaves its operands untouched.
///
/// The scalar type and its arithmetic are the caller's: each operation takes
/// the scalar functions it folds over as closures, and its contract relates the
/// result to those closures' own contracts.
#[derive(Clone, Debug, PartialEq)]
pub struct Vector<T> {
    pub data: Vec<T>,
}

impl<T> View for Vector<T> {
    type V = Seq<T>;

    open spec fn view(&self) -> Seq<T> {
        self.data@
    }
}

impl<T: Copy> Vector<T> {
    /// Wraps caller-supplied coordinates. Any finite sequence is accepted,
    /// the empty one included.
    pub fn new(data: Vec<T>) -> (v: Vector<T>)
        ensures
            v@ == data@,
    {
        Vector { data }
    }

    /// Elementwise sum. Fails with `DimensionMismatch` exactly when the two
    /// lengths differ; otherwise the result pairs the operands under `f`.
    pub fn add<F: Fn(T, T) -> T>(&self, other: &Vector<T>, f: &F) -> (r: Result<
        Vector<T>,
        LinAlgError,
    >)
        requires
            accepts_pairs(f),
        ensures
            match r {
                Ok(v) => self@.len() == other@.len() && elementwise(f, self@, other@, v@),
                Err(e) => self@.len() != other@.len() && e == LinAlgError::DimensionMismatch,
            },
    {
        if self.data.len() != other.data.len() {
            return Err(LinAlgError::DimensionMismatch);
        }
        let data = zip_map(&self.data, &other.data, f);
        Ok(Vector { data })
    }

    /// Elementwise difference, with the same precondition and failure mode as
    /// `add`; only the combining closure differs.
    pub fn sub<F: Fn(T, T) -> T>(&self, other: &Vector<T>, f: &F) -> (r: Result<
        Vector<T>,
        LinAlgError,
    >)
        requires
            accepts_pairs(f),
        ensures
            match r {
                Ok(v) => self@.len() == other@.len() && elementwise(f, self@, other@, v@),
                Err(e) => self@.len() != other@.len() && e == LinAlgError::DimensionMismatch,
            },
    {
        if self.data.len() != other.data.len() {
            return Err(LinAlgError::DimensionMismatch);
        }
        let data = zip_map(&self.data, &other.data, f);
        Ok(Vector { data })
    }

    /// Elementwise combination with the scalar `k`. Always succeeds and
    /// preserves the length.
    pub fn scalar_mul<F: Fn(T, T) -> T>(&self, k: T, f: &F) -> (r: Vector<T>)
        requires
            accepts_pairs(f),
        ensures
            scaled(f, self@, k, r@),
    {
        let data = scale_slice(&self.data, k, f);
        Vector { data }
    }

    /// Dot product: corresponding elements are combined under `mulf` and the
    /// products folded left to right with `addf`, starting from `zero`. Fails
    /// with `DimensionMismatch` exactly when the two lengths differ. Two empty
    /// vectors contract to `zero`.
    pub fn dot<MF: Fn(T, T) -> T, AF: Fn(T, T) -> T>(
        &self,
        other: &Vector<T>,
        mulf: &MF,
        addf: &AF,
        zero: T,
    ) -> (r: Result<T, LinAlgError>)
        requires
            accepts_pairs(mulf),
            accepts_pairs(addf),
        ensures
            match r {
                Ok(s) => self@.len() == other@.len() && contracted(mulf, addf, zero, self@, other@, s),
                Err(e) => self@.len() != other@.len() && e == LinAlgError::DimensionMismatch,
            },
    {
        if self.data.len() != other.data.len() {
            return Err(LinAlgError::DimensionMismatch);
        }
        let s = fold_products(&self.data, &other.data, mulf, addf, zero);
        Ok(s)
    }

    /// Norm: the square-root closure applied to the contraction of the vector
    /// against itself — the same fold the dot product performs. Always
    /// succeeds; on the empty vector `sqrt` is applied to `zero` itself.
    pub fn norm<MF: Fn(T, T) -> T, AF: Fn(T, T) -> T, SF: Fn(T) -> T>(
        &self,
        mulf: &MF,
        addf: &AF,
        zero: T,
        sqrt: &SF,
    ) -> (r: T)
        requires
            accepts_pairs(mulf),
            accepts_pairs(addf),
            accepts_each(sqrt),
        ensures
            exists|s: T|
                #[trigger] contracted(mulf, addf, zero, self@, self@, s) && call_ensures(
                    sqrt,
                    (s,),
                    r,
                ),
    {
        let s = match self.dot(self, mulf, addf, zero) {
            Ok(s) => s,
            Err(_) => unreached(),
        };
        let r = sqrt(s);
        proof {
            assert(contracted(mulf, addf, zero, self@, self@, s));
        }
        r
    }
}

/// Pairs the elements of two equally long slices of scalars under `f`,
/// in index order.
pub fn zip_map<T: Copy, F: Fn(T, T) -> T>(a: &Vec<T>, b: &Vec<T>, f: &F) -> (r: Vec<T>)
    requires
        a@.len() == b@.len(),
        accepts_pairs(f),
    ensures
        elementwise(f, a@, b@, r@),
{
    let mut out: Vec<T> = Vec::new();
    let n = a.len();
    let mut i: usize = 0;
    while i < n
        invariant
            accepts_pairs(f),
            n == a@.len(),
            n == b@.len(),
            i <= n,
            out@.len() == i as int,
            forall|j: int| 0 <= j < i ==> call_ensures(f, (a@[j], b@[j]), #[trigger] out@[j]),
        decreases n - i,
    {
        let x = f(a[i], b[i]);
        out.push(x);
        i += 1;
    }
    out
}

/// Combines every element of a slice of scalars with the scalar `k` under `f`,
/// in index order.
pub fn scale_slice<T: Copy, F: Fn(T, T) -> T>(a: &Vec<T>, k: T, f: &F) -> (r: Vec<T>)
    requires
        accepts_pairs(f),
    ensures
        scaled(f, a@, k, r@),
{
    let mut out: Vec<T> = Vec::new();
    let n = a.len();
    let mut i: usize = 0;
    while i < n
        invariant
            accepts_pairs(f),
            n == a@.len(),
            i <= n,
            out@.len() == i as int,
            forall|j: int| 0 <= j < i ==> call_ensures(f, (a@[j], k), #[trigger] out@[j]),
        decreases n - i,
    {
        let x = f(a[i], k);
        out.push(x);
        i += 1;
    }
    out
}

/// Contracts two equally long slices of scalars: multiplies corresponding
/// elements under `mulf` and folds the products with `addf`, left to right,
/// starting from `zero`.
pub fn fold_products<T: Copy, MF: Fn(T, T) -> T, AF: Fn(T, T) -> T>(
    a: &Vec<T>,
    b: &Vec<T>,
    mulf: &MF,
    addf: &AF,
    zero: T,
) -> (r: T)
    requires
        a@.len() == b@.len(),
        accepts_pairs(mulf),
        accepts_pairs(addf),
    ensures
        contracted(mulf, addf, zero, a@, b@, r),
{
    let mut acc = zero;
    let n = a.len();
    let mut i: usize = 0;
    proof {
        assert(a@.take(0) =~= Seq::<T>::empty());
    }
    while i < n
        invariant
            accepts_pairs(mulf),
            accepts_pairs(addf),
            n == a@.len(),
            n == b@.len(),
            i <= n,
            contracted(mulf, addf, zero, a@.take(i as int), b@.take(i as int), acc),
        decreases n - i,
    {
        let p = mulf(a[i], b[i]);
        let ghost prev = acc;
        acc = addf(acc, p);
        proof {
            let ai = i as int;
            assert(a@.take(ai + 1).drop_last() =~= a@.take(ai));
            assert(b@.take(ai + 1).drop_last() =~= b@.take(ai));
            assert(a@.take(ai + 1).last() == a@[ai]);
            assert(b@.take(ai + 1).last() == b@[ai]);
            crate::ops::lemma_contracted_step(
                mulf,
                addf,
                zero,
                a@.take(ai + 1),
                b@.take(ai + 1),
                prev,
                p,
                acc,
            );
        }
        i += 1;
    }
    proof {
        assert(a@.take(n as int) =~= a@);
        assert(b@.take(n as int) =~= b@);
    }
    acc
}

} // verus!
