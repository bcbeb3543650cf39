//! Scalar capability traits and the variance-tagged fixed-length vector.
//!
//! Every carrier type publishes a mathematical model through [`View`] and a
//! well-formedness predicate on that model; each algebraic operation is
//! specified as a function on models, and the algebraic laws are proof
//! obligations that every implementation discharges.

use core::marker::PhantomData;

use vstd::prelude::*;

use crate::cayley::Zero;
use crate::galois::Field;

verus! {

/// A carrier type whose values are abstracted by a mathematical model.
///
/// `wf` picks out the models that stand for values the algebra works on;
/// the laws of the other capability traits are stated for those models.
pub trait Valid: Sized + View {
    /// Whether a model stands for a well-formed value.
    spec fn wf(m: Self::V) -> bool;
}

/// Closed multiplication: the one capability a multiplicative magma has.
pub trait Magma: Valid {
    /// The model of the product of two values.
    spec fn mul_m(x: Self::V, y: Self::V) -> Self::V;

    /// Multiplication is closed on well-formed models.
    proof fn lemma_mul_wf(x: Self::V, y: Self::V)
        requires
            Self::wf(x),
            Self::wf(y),
        ensures
            Self::wf(Self::mul_m(x, y)),
    ;

    fn mul(&self, rhs: &Self) -> (r: Self)
        requires
            Self::wf(self@),
            Self::wf(rhs@),
        ensures
            r@ == Self::mul_m(self@, rhs@),
            Self::wf(r@),
    ;
}

/// The additive group capability: addition, negation and subtraction,
/// together with the group laws every implementation must prove.
pub trait Additive: Valid {
    /// The model of the sum of two values.
    spec fn add_m(x: Self::V, y: Self::V) -> Self::V;

    /// The model of the additive inverse of a value.
    spec fn neg_m(x: Self::V) -> Self::V;

    /// The model of the difference of two values.
    spec fn sub_m(x: Self::V, y: Self::V) -> Self::V;

    /// Addition is closed on well-formed models.
    proof fn lemma_add_wf(x: Self::V, y: Self::V)
        requires
            Self::wf(x),
            Self::wf(y),
        ensures
            Self::wf(Self::add_m(x, y)),
    ;

    /// Negation is closed on well-formed models.
    proof fn lemma_neg_wf(x: Self::V)
        requires
            Self::wf(x),
        ensures
            Self::wf(Self::neg_m(x)),
    ;

    /// Addition is associative.
    proof fn lemma_add_assoc(x: Self::V, y: Self::V, z: Self::V)
        requires
            Self::wf(x),
            Self::wf(y),
            Self::wf(z),
        ensures
            Self::add_m(Self::add_m(x, y), z) == Self::add_m(x, Self::add_m(y, z)),
    ;

    /// Addition is commutative.
    proof fn lemma_add_comm(x: Self::V, y: Self::V)
        requires
            Self::wf(x),
            Self::wf(y),
        ensures
            Self::add_m(x, y) == Self::add_m(y, x),
    ;

    /// Negation is an involution.
    proof fn lemma_neg_neg(x: Self::V)
        requires
            Self::wf(x),
        ensures
            Self::neg_m(Self::neg_m(x)) == x,
    ;

    /// Subtraction agrees with adding the additive inverse.
    proof fn lemma_sub_def(x: Self::V, y: Self::V)
        requires
            Self::wf(x),
            Self::wf(y),
        ensures
            Self::sub_m(x, y) == Self::add_m(x, Self::neg_m(y)),
    ;

    fn add(&self, rhs: &Self) -> (r: Self)
        requires
            Self::wf(self@),
            Self::wf(rhs@),
        ensures
            r@ == Self::add_m(self@, rhs@),
            Self::wf(r@),
    ;

    fn neg(&self) -> (r: Self)
        requires
            Self::wf(self@),
        ensures
            r@ == Self::neg_m(self@),
            Self::wf(r@),
    ;

    fn sub(&self, rhs: &Self) -> (r: Self)
        requires
            Self::wf(self@),
            Self::wf(rhs@),
        ensures
            r@ == Self::sub_m(self@, rhs@),
            Self::wf(r@),
    ;
}

/// The float-like capability every tensor element satisfies: the additive
/// group operations plus multiplication by a magma-capable scalar.
pub trait Float<S: Magma>: Additive {
    /// The model of a value scaled by a scalar.
    spec fn scale_m(x: Self::V, s: S::V) -> Self::V;

    /// Scaling is closed on well-formed models.
    proof fn lemma_scale_wf(x: Self::V, s: S::V)
        requires
            Self::wf(x),
            S::wf(s),
        ensures
            Self::wf(Self::scale_m(x, s)),
    ;

    fn scale(&self, s: &S) -> (r: Self)
        requires
            Self::wf(self@),
            S::wf(s@),
        ensures
            r@ == Self::scale_m(self@, s@),
            Self::wf(r@),
    ;
}

/// Type-level tag telling an upper (contravariant) tensor index from a
/// lower (covariant) one.
pub trait VariantKind {}

/// The lower-index tag.
pub struct Covariant;

/// The upper-index tag.
pub struct Contravariant;

impl VariantKind for Covariant {}

impl VariantKind for Contravariant {}

/// The error of building a fixed-length vector from a source of the wrong
/// element count.
#[derive(Clone, Copy, Debug, PartialEq, Eq, Structural)]
pub struct LengthMismatch;

/// An ordered sequence of exactly `N` elements of `B`, tagged at the type
/// level with its index variance `K` and the scalar type `S` it can be
/// scaled by. A vector of vectors is a rank-2 tensor, and so on upward.
#[derive(Debug)]
pub struct Vector<S: Magma, B: Float<S>, const N: usize, K: VariantKind> {
    data: Vec<B>,
    kind: PhantomData<(S, K)>,
}

impl<S: Magma, B: Float<S>, const N: usize, K: VariantKind> View for Vector<S, B, N, K> {
    type V = Seq<B::V>;

    closed spec fn view(&self) -> Seq<B::V> {
        self.data@.map_values(|x: B| x@)
    }
}

impl<S: Magma, B: Float<S>, const N: usize, K: VariantKind> Valid for Vector<S, B, N, K> {
    open spec fn wf(m: Seq<B::V>) -> bool {
        m.len() == N && forall|i: int| 0 <= i < m.len() ==> B::wf(#[trigger] m[i])
    }
}

impl<S: Magma, B: Float<S>, const N: usize, K: VariantKind> Vector<S, B, N, K> {
    /// The explicit length-checked build: accepts a source of exactly `N`
    /// elements and rejects every other length.
    pub fn from_vec(data: Vec<B>) -> (r: Result<Self, LengthMismatch>)
        ensures
            r is Ok <==> data@.len() == N,
            r matches Ok(v) ==> v@ == data@.map_values(|x: B| x@),
    {
        if data.len() == N {
            Ok(Vector { data, kind: PhantomData })
        } else {
            Err(LengthMismatch)
        }
    }

    /// Element access by index.
    pub fn get(&self, i: usize) -> (r: &B)
        requires
            Self::wf(self@),
            i < N,
        ensures
            r@ == self@[i as int],
    {
        &self.data[i]
    }
}

impl<S: Magma, B: Float<S> + Zero, const N: usize, K: VariantKind> Zero for Vector<S, B, N, K> {
    open spec fn zero_m() -> Seq<B::V> {
        Seq::new(N as nat, |i: int| B::zero_m())
    }

    proof fn lemma_zero_wf() {
        B::lemma_zero_wf();
    }

    fn zero() -> (r: Self) {
        let mut data: Vec<B> = Vec::new();
        let mut i: usize = 0;
        while i < N
            invariant
                i <= N,
                data@.len() == i,
                forall|j: int| 0 <= j < i ==> (#[trigger] data@[j])@ == B::zero_m(),
            decreases N - i,
        {
            data.push(B::zero());
            i = i + 1;
        }
        let r = Vector { data, kind: PhantomData };
        proof {
            assert(r@ =~= Self::zero_m());
            Self::lemma_zero_wf();
        }
        r
    }
}

impl<S: Magma, B: Float<S> + Zero, const N: usize, K: VariantKind> Default for Vector<
    S,
    B,
    N,
    K,
> {
    /// The default vector is the zero vector.
    fn default() -> (r: Self)
        ensures
            r@ == Self::zero_m(),
            Self::wf(r@),
    {
        Self::zero()
    }
}

impl<S: Magma, B: Float<S>, const N: usize, K: VariantKind> Float<S> for Vector<S, B, N, K> {
    open spec fn scale_m(x: Seq<B::V>, s: S::V) -> Seq<B::V> {
        Seq::new(x.len(), |i: int| B::scale_m(x[i], s))
    }

    proof fn lemma_scale_wf(x: Seq<B::V>, s: S::V) {
        assert forall|i: int| 0 <= i < Self::scale_m(x, s).len() implies B::wf(
            #[trigger] Self::scale_m(x, s)[i],
        ) by {
            B::lemma_scale_wf(x[i], s);
        }
    }

    fn scale(&self, s: &S) -> (r: Self) {
        let mut data: Vec<B> = Vec::new();
        let mut i: usize = 0;
        while i < self.data.len()
            invariant
                Self::wf(self@),
                S::wf(s@),
                self.data.len() == N,
                i <= N,
                data@.len() == i,
                forall|j: int| 0 <= j < i ==> data@.map_values(|x: B| x@)[j] == Self::scale_m(
                    self@,
                    s@,
                )[j],
            decreases N - i,
        {
            proof {
                assert(self@[i as int] == self.data@[i as int]@);
            }
            let e: B = self.data[i].scale(s);
            data.push(e);
            i = i + 1;
        }
        let r = Vector { data, kind: PhantomData };
        proof {
            assert(r@ =~= Self::scale_m(self@, s@));
            Self::lemma_scale_wf(self@, s@);
        }
        r
    }
}

impl<S: Magma, B: Float<S>, const N: usize, K: VariantKind> Additive for Vector<S, B, N, K> {
    open spec fn add_m(x: Seq<B::V>, y: Seq<B::V>) -> Seq<B::V> {
        Seq::new(x.len(), |i: int| B::add_m(x[i], y[i]))
    }

    open spec fn neg_m(x: Seq<B::V>) -> Seq<B::V> {
        Seq::new(x.len(), |i: int| B::neg_m(x[i]))
    }

    open spec fn sub_m(x: Seq<B::V>, y: Seq<B::V>) -> Seq<B::V> {
        Seq::new(x.len(), |i: int| B::sub_m(x[i], y[i]))
    }

    proof fn lemma_add_wf(x: Seq<B::V>, y: Seq<B::V>) {
        assert forall|i: int| 0 <= i < Self::add_m(x, y).len() implies B::wf(
            #[trigger] Self::add_m(x, y)[i],
        ) by {
            B::lemma_add_wf(x[i], y[i]);
        }
    }

    proof fn lemma_neg_wf(x: Seq<B::V>) {
        assert forall|i: int| 0 <= i < Self::neg_m(x).len() implies B::wf(
            #[trigger] Self::neg_m(x)[i],
        ) by {
            B::lemma_neg_wf(x[i]);
        }
    }

    proof fn lemma_add_assoc(x: Seq<B::V>, y: Seq<B::V>, z: Seq<B::V>) {
        assert forall|i: int| 0 <= i < x.len() implies Self::add_m(Self::add_m(x, y), z)[i]
            == Self::add_m(x, Self::add_m(y, z))[i] by {
            B::lemma_add_assoc(x[i], y[i], z[i]);
        }
        assert(Self::add_m(Self::add_m(x, y), z) =~= Self::add_m(x, Self::add_m(y, z)));
    }

    proof fn lemma_add_comm(x: Seq<B::V>, y: Seq<B::V>) {
        assert forall|i: int| 0 <= i < x.len() implies Self::add_m(x, y)[i] == Self::add_m(y, x)[i]
            by {
            B::lemma_add_comm(x[i], y[i]);
        }
        assert(Self::add_m(x, y) =~= Self::add_m(y, x));
    }

    proof fn lemma_neg_neg(x: Seq<B::V>) {
        assert forall|i: int| 0 <= i < x.len() implies Self::neg_m(Self::neg_m(x))[i] == x[i] by {
            B::lemma_neg_neg(x[i]);
        }
        assert(Self::neg_m(Self::neg_m(x)) =~= x);
    }

    proof fn lemma_sub_def(x: Seq<B::V>, y: Seq<B::V>) {
        assert forall|i: int| 0 <= i < x.len() implies Self::sub_m(x, y)[i] == Self::add_m(
            x,
            Self::neg_m(y),
        )[i] by {
            B::lemma_sub_def(x[i], y[i]);
        }
        assert(Self::sub_m(x, y) =~= Self::add_m(x, Self::neg_m(y)));
    }

    fn add(&self, rhs: &Self) -> (r: Self) {
        let mut data: Vec<B> = Vec::new();
        let mut i: usize = 0;
        while i < self.data.len()
            invariant
                Self::wf(self@),
                Self::wf(rhs@),
                self.data.len() == N,
                i <= N,
                data@.len() == i,
                forall|j: int| 0 <= j < i ==> data@.map_values(|x: B| x@)[j] == Self::add_m(
                    self@,
                    rhs@,
                )[j],
            decreases N - i,
        {
            proof {
                assert(self@[i as int] == self.data@[i as int]@);
                assert(rhs@[i as int] == rhs.data@[i as int]@);
            }
            let e: B = self.data[i].add(&rhs.data[i]);
            data.push(e);
            i = i + 1;
        }
        let r = Vector { data, kind: PhantomData };
        proof {
            assert(r@ =~= Self::add_m(self@, rhs@));
            Self::lemma_add_wf(self@, rhs@);
        }
        r
    }

    fn neg(&self) -> (r: Self) {
        let mut data: Vec<B> = Vec::new();
        let mut i: usize = 0;
        while i < self.data.len()
            invariant
                Self::wf(self@),
                self.data.len() == N,
                i <= N,
                data@.len() == i,
                forall|j: int| 0 <= j < i ==> data@.map_values(|x: B| x@)[j] == Self::neg_m(
                    self@,
                )[j],
            decreases N - i,
        {
            proof {
                assert(self@[i as int] == self.data@[i as int]@);
            }
            let e: B = self.data[i].neg();
            data.push(e);
            i = i + 1;
        }
        let r = Vector { data, kind: PhantomData };
        proof {
            assert(r@ =~= Self::neg_m(self@));
            Self::lemma_neg_wf(self@);
        }
        r
    }

    fn sub(&self, rhs: &Self) -> (r: Self) {
        let mut data: Vec<B> = Vec::new();
        let mut i: usize = 0;
        while i < self.data.len()
            invariant
                Self::wf(self@),
                Self::wf(rhs@),
                self.data.len() == N,
                i <= N,
                data@.len() == i,
                forall|j: int| 0 <= j < i ==> data@.map_values(|x: B| x@)[j] == Self::sub_m(
                    self@,
                    rhs@,
                )[j],
            decreases N - i,
        {
            proof {
                assert(self@[i as int] == self.data@[i as int]@);
                assert(rhs@[i as int] == rhs.data@[i as int]@);
            }
            let e: B = self.data[i].sub(&rhs.data[i]);
            data.push(e);
            i = i + 1;
        }
        let r = Vector { data, kind: PhantomData };
        proof {
            assert(r@ =~= Self::sub_m(self@, rhs@));
            Self::lemma_sub_def(self@, rhs@);
            Self::lemma_neg_wf(rhs@);
            Self::lemma_add_wf(self@, Self::neg_m(rhs@));
        }
        r
    }
}

impl<S: Magma, B: Float<S>, const N: usize, K: VariantKind> Vector<S, B, N, K> {
    /// Replaces the vector by the elementwise sum.
    pub fn add_assign(&mut self, rhs: &Self)
        requires
            Self::wf(old(self)@),
            Self::wf(rhs@),
        ensures
            final(self)@ == Self::add_m(old(self)@, rhs@),
            Self::wf(final(self)@),
    {
        let t: Self = self.add(rhs);
        *self = t;
    }

    /// Replaces the vector by the elementwise difference.
    pub fn sub_assign(&mut self, rhs: &Self)
        requires
            Self::wf(old(self)@),
            Self::wf(rhs@),
        ensures
            final(self)@ == Self::sub_m(old(self)@, rhs@),
            Self::wf(final(self)@),
    {
        let t: Self = self.sub(rhs);
        *self = t;
    }

    /// Replaces the vector by its scaling.
    pub fn mul_assign(&mut self, s: &S)
        requires
            Self::wf(old(self)@),
            S::wf(s@),
        ensures
            final(self)@ == Self::scale_m(old(self)@, s@),
            Self::wf(final(self)@),
    {
        let t: Self = self.scale(s);
        *self = t;
    }
}

/// Two sums of two terms each may swap their inner operands: the
/// four-term exchange law of any additive group,
/// `(p + q) + (r + s) == (p + r) + (q + s)`.
pub proof fn lemma_add_exchange<T: Additive>(p: T::V, q: T::V, r: T::V, s: T::V)
    requires
        T::wf(p),
        T::wf(q),
        T::wf(r),
        T::wf(s),
    ensures
        T::add_m(T::add_m(p, q), T::add_m(r, s)) == T::add_m(T::add_m(p, r), T::add_m(q, s)),
{
    T::lemma_add_wf(r, s);
    T::lemma_add_wf(q, s);
    T::lemma_add_wf(q, r);
    T::lemma_add_assoc(p, q, T::add_m(r, s));
    T::lemma_add_assoc(q, r, s);
    T::lemma_add_comm(q, r);
    T::lemma_add_assoc(r, q, s);
    T::lemma_add_assoc(p, r, T::add_m(q, s));
}

/// The left-fold sum of a sequence of models, starting from zero.
pub open spec fn sum_m<B: Additive + Zero>(s: Seq<B::V>) -> B::V
    decreases s.len(),
{
    if s.len() == 0 {
        B::zero_m()
    } else {
        B::add_m(sum_m::<B>(s.drop_last()), s.last())
    }
}

/// The model of contracting `x` against an opposite-variance `y`: the sum
/// of each `x[i]` scaled by `y[i]`.
pub open spec fn inner_m<S: Magma, B: Float<S> + Zero>(x: Seq<B::V>, y: Seq<S::V>) -> B::V {
    sum_m::<B>(Seq::new(x.len(), |i: int| B::scale_m(x[i], y[i])))
}

/// The model of the diagonal sum of a rank-2 tensor.
pub open spec fn trace_m<B: Additive + Zero>(x: Seq<Seq<B::V>>) -> B::V {
    sum_m::<B>(Seq::new(x.len(), |i: int| x[i][i]))
}

/// The model of promoting a vector of scalars by an outer element `b`:
/// each entry is `b` scaled by the matching scalar.
pub open spec fn append_m<S: Magma, B: Float<S>>(x: Seq<S::V>, b: B::V) -> Seq<B::V> {
    Seq::new(x.len(), |i: int| B::scale_m(b, x[i]))
}

impl<S: Magma + Float<S>, const N: usize, K: VariantKind> Vector<S, S, N, K> {
    /// Promotes this vector of scalars into a vector of `B2` slots by
    /// scaling `base` into each entry: the outer-product-style extension
    /// that turns a rank-1 vector into a rank-2 tensor slot. The variance
    /// tag is kept.
    pub fn append<B2: Float<S>>(&self, base: &B2) -> (r: Vector<S, B2, N, K>)
        requires
            Self::wf(self@),
            B2::wf(base@),
        ensures
            r@ == append_m::<S, B2>(self@, base@),
            Vector::<S, B2, N, K>::wf(r@),
    {
        let mut data: Vec<B2> = Vec::new();
        let mut i: usize = 0;
        while i < self.data.len()
            invariant
                Self::wf(self@),
                B2::wf(base@),
                self.data.len() == N,
                i <= N,
                data@.len() == i,
                forall|j: int| 0 <= j < i ==> data@.map_values(|x: B2| x@)[j] == append_m::<
                    S,
                    B2,
                >(self@, base@)[j],
            decreases N - i,
        {
            proof {
                assert(self@[i as int] == self.data@[i as int]@);
            }
            let e: B2 = base.scale(&self.data[i]);
            data.push(e);
            i = i + 1;
        }
        let r = Vector { data, kind: PhantomData };
        proof {
            assert(r@ =~= append_m::<S, B2>(self@, base@));
            assert forall|j: int| 0 <= j < r@.len() implies B2::wf(#[trigger] r@[j]) by {
                B2::lemma_scale_wf(base@, self@[j]);
            }
        }
        r
    }
}

impl<S: Magma + Float<S>, B: Float<S> + Zero, const N: usize> Vector<S, B, N, Covariant> {
    /// Contracts this covariant vector against a contravariant one: the
    /// sum of the elementwise products. Contracting two vectors of the
    /// same variance does not type-check.
    pub fn inner(&self, other: &Vector<S, S, N, Contravariant>) -> (r: B)
        requires
            Self::wf(self@),
            Vector::<S, S, N, Contravariant>::wf(other@),
        ensures
            r@ == inner_m::<S, B>(self@, other@),
            B::wf(r@),
    {
        let mut acc: B = B::zero();
        proof {
            B::lemma_zero_wf();
        }
        let mut i: usize = 0;
        while i < self.data.len()
            invariant
                Self::wf(self@),
                Vector::<S, S, N, Contravariant>::wf(other@),
                self.data.len() == N,
                other.data.len() == N,
                i <= N,
                B::wf(acc@),
                acc@ == sum_m::<B>(
                    Seq::new(i as nat, |j: int| B::scale_m(self@[j], other@[j])),
                ),
            decreases N - i,
        {
            proof {
                assert(self@[i as int] == self.data@[i as int]@);
                assert(other@[i as int] == other.data@[i as int]@);
            }
            let p: B = self.data[i].scale(&other.data[i]);
            acc = acc.add(&p);
            proof {
                assert(Seq::new((i + 1) as nat, |j: int| B::scale_m(self@[j], other@[j]))
                    .drop_last() =~= Seq::new(i as nat, |j: int| B::scale_m(self@[j], other@[j])));
            }
            i = i + 1;
        }
        proof {
            assert(Seq::new(N as nat, |j: int| B::scale_m(self@[j], other@[j])) =~= Seq::new(
                self@.len(),
                |j: int| B::scale_m(self@[j], other@[j]),
            ));
        }
        acc
    }
}

impl<S: Magma + Float<S>, B: Float<S> + Zero, const N: usize> Vector<S, B, N, Contravariant> {
    /// Contracts this contravariant vector against a covariant one: the
    /// sum of the elementwise products. Contracting two vectors of the
    /// same variance does not type-check.
    pub fn inner(&self, other: &Vector<S, S, N, Covariant>) -> (r: B)
        requires
            Self::wf(self@),
            Vector::<S, S, N, Covariant>::wf(other@),
        ensures
            r@ == inner_m::<S, B>(self@, other@),
            B::wf(r@),
    {
        let mut acc: B = B::zero();
        proof {
            B::lemma_zero_wf();
        }
        let mut i: usize = 0;
        while i < self.data.len()
            invariant
                Self::wf(self@),
                Vector::<S, S, N, Covariant>::wf(other@),
                self.data.len() == N,
                other.data.len() == N,
                i <= N,
                B::wf(acc@),
                acc@ == sum_m::<B>(
                    Seq::new(i as nat, |j: int| B::scale_m(self@[j], other@[j])),
                ),
            decreases N - i,
        {
            proof {
                assert(self@[i as int] == self.data@[i as int]@);
                assert(other@[i as int] == other.data@[i as int]@);
            }
            let p: B = self.data[i].scale(&other.data[i]);
            acc = acc.add(&p);
            proof {
                assert(Seq::new((i + 1) as nat, |j: int| B::scale_m(self@[j], other@[j]))
                    .drop_last() =~= Seq::new(i as nat, |j: int| B::scale_m(self@[j], other@[j])));
            }
            i = i + 1;
        }
        proof {
            assert(Seq::new(N as nat, |j: int| B::scale_m(self@[j], other@[j])) =~= Seq::new(
                self@.len(),
                |j: int| B::scale_m(self@[j], other@[j]),
            ));
        }
        acc
    }
}

impl<S: Magma, B: Float<S> + Zero, const N: usize> Vector<
    S,
    Vector<S, B, N, Contravariant>,
    N,
    Covariant,
> {
    /// Sums the diagonal of a rank-2 tensor whose outer index is covariant
    /// and whose inner index is contravariant. A same-variance nesting has
    /// no trace and does not type-check.
    pub fn trace(&self) -> (r: B)
        requires
            Self::wf(self@),
        ensures
            r@ == trace_m::<B>(self@),
            B::wf(r@),
    {
        let mut acc: B = B::zero();
        proof {
            B::lemma_zero_wf();
        }
        let mut i: usize = 0;
        while i < self.data.len()
            invariant
                Self::wf(self@),
                self.data.len() == N,
                i <= N,
                B::wf(acc@),
                acc@ == sum_m::<B>(Seq::new(i as nat, |j: int| self@[j][j])),
            decreases N - i,
        {
            proof {
                assert(self@[i as int] == self.data@[i as int]@);
                assert(self@[i as int][i as int] == self.data@[i as int].data@[i as int]@);
            }
            acc = acc.add(&self.data[i].data[i]);
            proof {
                assert(Seq::new((i + 1) as nat, |j: int| self@[j][j]).drop_last() =~= Seq::new(
                    i as nat,
                    |j: int| self@[j][j],
                ));
            }
            i = i + 1;
        }
        proof {
            assert(Seq::new(N as nat, |j: int| self@[j][j]) =~= Seq::new(
                self@.len(),
                |j: int| self@[j][j],
            ));
        }
        acc
    }
}

impl<S: Magma, B: Float<S> + Zero, const N: usize> Vector<
    S,
    Vector<S, B, N, Covariant>,
    N,
    Contravariant,
> {
    /// Sums the diagonal of a rank-2 tensor whose outer index is
    /// contravariant and whose inner index is covariant. A same-variance
    /// nesting has no trace and does not type-check.
    pub fn trace(&self) -> (r: B)
        requires
            Self::wf(self@),
        ensures
            r@ == trace_m::<B>(self@),
            B::wf(r@),
    {
        let mut acc: B = B::zero();
        proof {
            B::lemma_zero_wf();
        }
        let mut i: usize = 0;
        while i < self.data.len()
            invariant
                Self::wf(self@),
                self.data.len() == N,
                i <= N,
                B::wf(acc@),
                acc@ == sum_m::<B>(Seq::new(i as nat, |j: int| self@[j][j])),
            decreases N - i,
        {
            proof {
                assert(self@[i as int] == self.data@[i as int]@);
                assert(self@[i as int][i as int] == self.data@[i as int].data@[i as int]@);
            }
            acc = acc.add(&self.data[i].data[i]);
            proof {
                assert(Seq::new((i + 1) as nat, |j: int| self@[j][j]).drop_last() =~= Seq::new(
                    i as nat,
                    |j: int| self@[j][j],
                ));
            }
            i = i + 1;
        }
        proof {
            assert(Seq::new(N as nat, |j: int| self@[j][j]) =~= Seq::new(
                self@.len(),
                |j: int| self@[j][j],
            ));
        }
        acc
    }
}

/// The contraction identity: contracting a vector of scalars against an
/// opposite-variance vector agrees with first promoting it to a rank-2
/// tensor by `append` and then taking the trace, for any field-like
/// scalar and any length.
pub proof fn lemma_inner_append_trace<S: Field, const N: usize>(x: Seq<S::V>, y: Seq<S::V>)
    requires
        x.len() == N,
        y.len() == N,
        forall|i: int| 0 <= i < x.len() ==> S::wf(#[trigger] x[i]),
        forall|i: int| 0 <= i < y.len() ==> S::wf(#[trigger] y[i]),
    ensures
        inner_m::<S, S>(x, y) == trace_m::<S>(
            append_m::<S, Vector<S, S, N, Contravariant>>(x, y),
        ),
{
    let m = append_m::<S, Vector<S, S, N, Contravariant>>(x, y);
    assert forall|i: int| 0 <= i < x.len() implies #[trigger] S::scale_m(y[i], x[i])
        == S::scale_m(x[i], y[i]) by {
        S::lemma_scale_is_mul(y[i], x[i]);
        S::lemma_scale_is_mul(x[i], y[i]);
        S::lemma_mul_comm(x[i], y[i]);
    }
    assert(Seq::new(m.len(), |j: int| m[j][j]) =~= Seq::new(
        x.len(),
        |j: int| S::scale_m(x[j], y[j]),
    ));
}

/// A vector of scalars with a lower index.
pub type Row<S, const N: usize> = Vector<S, S, N, Covariant>;

/// A vector of scalars with an upper index.
pub type Column<S, const N: usize> = Vector<S, S, N, Contravariant>;

} // verus!
