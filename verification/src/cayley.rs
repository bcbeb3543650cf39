//! The Cayley-Dickson pair: a two-component structure over any conjugated
//! base, composable with itself to double an algebra's dimension.

use vstd::prelude::*;

use crate::galois::Field;
use crate::tensor::{lemma_add_exchange, Additive, Float, Magma, Valid};

verus! {

/// A type with a distinguished zero value.
pub trait Zero: Valid {
    /// The model of the zero value.
    spec fn zero_m() -> Self::V;

    /// The zero value is well formed.
    proof fn lemma_zero_wf()
        ensures
            Self::wf(Self::zero_m()),
    ;

    fn zero() -> (r: Self)
        ensures
            r@ == Self::zero_m(),
            Self::wf(r@),
    ;
}

/// An involutive conjugation, the heart of the doubling construction.
pub trait Conjugate: Valid {
    /// The model of the conjugate of a value.
    spec fn conj_m(x: Self::V) -> Self::V;

    /// Conjugation is closed on well-formed models.
    proof fn lemma_conj_wf(x: Self::V)
        requires
            Self::wf(x),
        ensures
            Self::wf(Self::conj_m(x)),
    ;

    /// Conjugation is an involution.
    proof fn lemma_conj_conj(x: Self::V)
        requires
            Self::wf(x),
        ensures
            Self::conj_m(Self::conj_m(x)) == x,
    ;

    fn conjugate(&self) -> (r: Self)
        requires
            Self::wf(self@),
        ensures
            r@ == Self::conj_m(self@),
            Self::wf(r@),
    ;
}

/// A two-component structure `(a, b)` over a conjugated base. Applied to
/// itself it doubles an algebra's dimension: complex numbers, quaternions
/// and octonions arise from one, two and three applications over a base
/// field.
#[derive(Clone, PartialEq, Eq, Structural, Debug)]
pub struct CayleyPair<T> {
    pub a: T,
    pub b: T,
}

impl<T: View> View for CayleyPair<T> {
    type V = CayleyPair<T::V>;

    open spec fn view(&self) -> CayleyPair<T::V> {
        CayleyPair { a: self.a@, b: self.b@ }
    }
}

impl<T: Valid> Valid for CayleyPair<T> {
    open spec fn wf(m: CayleyPair<T::V>) -> bool {
        T::wf(m.a) && T::wf(m.b)
    }
}

impl<T: Zero> Zero for CayleyPair<T> {
    open spec fn zero_m() -> CayleyPair<T::V> {
        CayleyPair { a: T::zero_m(), b: T::zero_m() }
    }

    proof fn lemma_zero_wf() {
        T::lemma_zero_wf();
    }

    fn zero() -> (r: Self) {
        CayleyPair { a: T::zero(), b: T::zero() }
    }
}

impl<T: Zero> CayleyPair<T> {
    /// Embeds a base value on the real axis: the pair `(x, 0)`.
    pub fn from_real(x: T) -> (r: Self)
        ensures
            r@.a == x@,
            r@.b == T::zero_m(),
            T::wf(x@) ==> Self::wf(r@),
    {
        proof {
            T::lemma_zero_wf();
        }
        CayleyPair { a: x, b: T::zero() }
    }

    /// Embeds a base value on the imaginary axis: the pair `(0, x)`.
    pub fn imagine(x: T) -> (r: Self)
        ensures
            r@.a == T::zero_m(),
            r@.b == x@,
            T::wf(x@) ==> Self::wf(r@),
    {
        proof {
            T::lemma_zero_wf();
        }
        CayleyPair { a: T::zero(), b: x }
    }
}

impl<T: Additive> CayleyPair<T> {
    /// Replaces the pair by the componentwise sum.
    pub fn add_assign(&mut self, rhs: &Self)
        requires
            Self::wf(old(self)@),
            Self::wf(rhs@),
        ensures
            final(self)@ == Self::add_m(old(self)@, rhs@),
            Self::wf(final(self)@),
    {
        let t: Self = self.add(rhs);
        *self = t;
    }

    /// Replaces the pair by the componentwise difference.
    pub fn sub_assign(&mut self, rhs: &Self)
        requires
            Self::wf(old(self)@),
            Self::wf(rhs@),
        ensures
            final(self)@ == Self::sub_m(old(self)@, rhs@),
            Self::wf(final(self)@),
    {
        let t: Self = self.sub(rhs);
        *self = t;
    }
}

impl<T: Magma + Additive + Conjugate> CayleyPair<T> {
    /// Replaces the pair by the doubling-formula product.
    pub fn mul_assign(&mut self, rhs: &Self)
        requires
            Self::wf(old(self)@),
            Self::wf(rhs@),
        ensures
            final(self)@ == Self::mul_m(old(self)@, rhs@),
            Self::wf(final(self)@),
    {
        let t: Self = self.mul(rhs);
        *self = t;
    }
}

impl<T: Conjugate + Additive> Conjugate for CayleyPair<T> {
    open spec fn conj_m(x: CayleyPair<T::V>) -> CayleyPair<T::V> {
        CayleyPair { a: T::conj_m(x.a), b: T::neg_m(x.b) }
    }

    proof fn lemma_conj_wf(x: CayleyPair<T::V>) {
        T::lemma_conj_wf(x.a);
        T::lemma_neg_wf(x.b);
    }

    proof fn lemma_conj_conj(x: CayleyPair<T::V>) {
        T::lemma_conj_conj(x.a);
        T::lemma_conj_wf(x.a);
        T::lemma_neg_wf(x.b);
        T::lemma_neg_neg(x.b);
    }

    fn conjugate(&self) -> (r: Self) {
        CayleyPair { a: self.a.conjugate(), b: self.b.neg() }
    }
}

impl<T: Additive> Additive for CayleyPair<T> {
    open spec fn add_m(x: CayleyPair<T::V>, y: CayleyPair<T::V>) -> CayleyPair<T::V> {
        CayleyPair { a: T::add_m(x.a, y.a), b: T::add_m(x.b, y.b) }
    }

    open spec fn neg_m(x: CayleyPair<T::V>) -> CayleyPair<T::V> {
        CayleyPair { a: T::neg_m(x.a), b: T::neg_m(x.b) }
    }

    open spec fn sub_m(x: CayleyPair<T::V>, y: CayleyPair<T::V>) -> CayleyPair<T::V> {
        CayleyPair { a: T::sub_m(x.a, y.a), b: T::sub_m(x.b, y.b) }
    }

    proof fn lemma_add_wf(x: CayleyPair<T::V>, y: CayleyPair<T::V>) {
        T::lemma_add_wf(x.a, y.a);
        T::lemma_add_wf(x.b, y.b);
    }

    proof fn lemma_neg_wf(x: CayleyPair<T::V>) {
        T::lemma_neg_wf(x.a);
        T::lemma_neg_wf(x.b);
    }

    proof fn lemma_add_assoc(x: CayleyPair<T::V>, y: CayleyPair<T::V>, z: CayleyPair<T::V>) {
        T::lemma_add_assoc(x.a, y.a, z.a);
        T::lemma_add_assoc(x.b, y.b, z.b);
    }

    proof fn lemma_add_comm(x: CayleyPair<T::V>, y: CayleyPair<T::V>) {
        T::lemma_add_comm(x.a, y.a);
        T::lemma_add_comm(x.b, y.b);
    }

    proof fn lemma_neg_neg(x: CayleyPair<T::V>) {
        T::lemma_neg_neg(x.a);
        T::lemma_neg_neg(x.b);
    }

    proof fn lemma_sub_def(x: CayleyPair<T::V>, y: CayleyPair<T::V>) {
        T::lemma_sub_def(x.a, y.a);
        T::lemma_sub_def(x.b, y.b);
    }

    fn add(&self, rhs: &Self) -> (r: Self) {
        CayleyPair { a: self.a.add(&rhs.a), b: self.b.add(&rhs.b) }
    }

    fn neg(&self) -> (r: Self) {
        CayleyPair { a: self.a.neg(), b: self.b.neg() }
    }

    fn sub(&self, rhs: &Self) -> (r: Self) {
        CayleyPair { a: self.a.sub(&rhs.a), b: self.b.sub(&rhs.b) }
    }
}

impl<S: Magma, T: Float<S>> Float<S> for CayleyPair<T> {
    open spec fn scale_m(x: CayleyPair<T::V>, s: S::V) -> CayleyPair<T::V> {
        CayleyPair { a: T::scale_m(x.a, s), b: T::scale_m(x.b, s) }
    }

    proof fn lemma_scale_wf(x: CayleyPair<T::V>, s: S::V) {
        T::lemma_scale_wf(x.a, s);
        T::lemma_scale_wf(x.b, s);
    }

    fn scale(&self, s: &S) -> (r: Self) {
        CayleyPair { a: self.a.scale(s), b: self.b.scale(s) }
    }
}

impl<T: Magma + Additive + Conjugate> Magma for CayleyPair<T> {
    /// The doubling formula `(a, b) * (c, d) = (ac - conj(d) b, da + b conj(c))`.
    open spec fn mul_m(x: CayleyPair<T::V>, y: CayleyPair<T::V>) -> CayleyPair<T::V> {
        CayleyPair {
            a: T::sub_m(T::mul_m(x.a, y.a), T::mul_m(T::conj_m(y.b), x.b)),
            b: T::add_m(T::mul_m(y.b, x.a), T::mul_m(x.b, T::conj_m(y.a))),
        }
    }

    proof fn lemma_mul_wf(x: CayleyPair<T::V>, y: CayleyPair<T::V>) {
        T::lemma_mul_wf(x.a, y.a);
        T::lemma_conj_wf(y.b);
        T::lemma_mul_wf(T::conj_m(y.b), x.b);
        T::lemma_sub_def(T::mul_m(x.a, y.a), T::mul_m(T::conj_m(y.b), x.b));
        T::lemma_neg_wf(T::mul_m(T::conj_m(y.b), x.b));
        T::lemma_add_wf(T::mul_m(x.a, y.a), T::neg_m(T::mul_m(T::conj_m(y.b), x.b)));
        T::lemma_mul_wf(y.b, x.a);
        T::lemma_conj_wf(y.a);
        T::lemma_mul_wf(x.b, T::conj_m(y.a));
        T::lemma_add_wf(T::mul_m(y.b, x.a), T::mul_m(x.b, T::conj_m(y.a)));
    }

    fn mul(&self, rhs: &Self) -> (r: Self) {
        proof {
            Self::lemma_mul_wf(self@, rhs@);
        }
        let t1: T = self.a.mul(&rhs.a);
        let cb: T = rhs.b.conjugate();
        let t2: T = cb.mul(&self.b);
        let ra: T = t1.sub(&t2);
        let t3: T = rhs.b.mul(&self.a);
        let ca: T = rhs.a.conjugate();
        let t4: T = self.b.mul(&ca);
        let rb: T = t3.add(&t4);
        CayleyPair { a: ra, b: rb }
    }
}

/// Ring law for pairs: `x + (-x)` is the zero pair, over any field-like
/// base.
pub proof fn lemma_pair_add_neg<T: Field>(x: CayleyPair<T::V>)
    requires
        CayleyPair::<T>::wf(x),
    ensures
        CayleyPair::<T>::add_m(x, CayleyPair::<T>::neg_m(x)) == CayleyPair::<T>::zero_m(),
{
    T::lemma_add_neg(x.a);
    T::lemma_add_neg(x.b);
}

/// Ring law for pairs: the doubling product distributes over addition
/// from the left, over any field-like base.
pub proof fn lemma_pair_mul_distributes_left<T: Field>(
    x: CayleyPair<T::V>,
    y: CayleyPair<T::V>,
    z: CayleyPair<T::V>,
)
    requires
        CayleyPair::<T>::wf(x),
        CayleyPair::<T>::wf(y),
        CayleyPair::<T>::wf(z),
    ensures
        CayleyPair::<T>::mul_m(x, CayleyPair::<T>::add_m(y, z)) == CayleyPair::<T>::add_m(
            CayleyPair::<T>::mul_m(x, y),
            CayleyPair::<T>::mul_m(x, z),
        ),
{
    let a: T::V = x.a;
    let b: T::V = x.b;
    let c: T::V = y.a;
    let d: T::V = y.b;
    let e: T::V = z.a;
    let f: T::V = z.b;
    // The first component: a(c + e) - conj(d + f) b.
    T::lemma_conj_wf(d);
    T::lemma_conj_wf(f);
    T::lemma_mul_wf(a, c);
    T::lemma_mul_wf(a, e);
    T::lemma_mul_wf(T::conj_m(d), b);
    T::lemma_mul_wf(T::conj_m(f), b);
    let p1: T::V = T::mul_m(a, c);
    let p2: T::V = T::mul_m(a, e);
    let q1: T::V = T::mul_m(T::conj_m(d), b);
    let q2: T::V = T::mul_m(T::conj_m(f), b);
    T::lemma_mul_distributes_left(a, c, e);
    T::lemma_conj_add(d, f);
    T::lemma_mul_distributes_right(T::conj_m(d), T::conj_m(f), b);
    T::lemma_add_wf(p1, p2);
    T::lemma_add_wf(q1, q2);
    T::lemma_sub_def(T::add_m(p1, p2), T::add_m(q1, q2));
    T::lemma_neg_add(q1, q2);
    T::lemma_neg_wf(q1);
    T::lemma_neg_wf(q2);
    lemma_add_exchange::<T>(p1, p2, T::neg_m(q1), T::neg_m(q2));
    T::lemma_sub_def(p1, q1);
    T::lemma_sub_def(p2, q2);
    // The second component: (d + f) a + b conj(c + e).
    T::lemma_conj_wf(c);
    T::lemma_conj_wf(e);
    T::lemma_mul_distributes_right(d, f, a);
    T::lemma_conj_add(c, e);
    T::lemma_mul_distributes_left(b, T::conj_m(c), T::conj_m(e));
    T::lemma_mul_wf(d, a);
    T::lemma_mul_wf(f, a);
    T::lemma_mul_wf(b, T::conj_m(c));
    T::lemma_mul_wf(b, T::conj_m(e));
    lemma_add_exchange::<T>(
        T::mul_m(d, a),
        T::mul_m(f, a),
        T::mul_m(b, T::conj_m(c)),
        T::mul_m(b, T::conj_m(e)),
    );
}

} // verus!
