//! The field-like capability and a modular (finite-field) element.

use vstd::prelude::*;

use vstd::arithmetic::div_mod::{
    lemma_add_mod_noop, lemma_add_mod_noop_right, lemma_mod_add_multiples_vanish,
    lemma_mod_bound, lemma_mul_mod_noop_left, lemma_mul_mod_noop_right, lemma_small_mod,
};

use crate::cayley::{Conjugate, Zero};
use crate::tensor::{Additive, Float, Magma, Valid};

verus! {

/// The full ring capability: a magma that is also an additive group over
/// itself, with a zero and a conjugation, obeying the ring laws.
pub trait Field: Magma + Float<Self> + Zero + Conjugate {
    /// Zero is the additive identity.
    proof fn lemma_zero_add(x: Self::V)
        requires
            Self::wf(x),
        ensures
            Self::add_m(Self::zero_m(), x) == x,
    ;

    /// Every well-formed value has its negation as additive inverse.
    proof fn lemma_add_neg(x: Self::V)
        requires
            Self::wf(x),
        ensures
            Self::add_m(x, Self::neg_m(x)) == Self::zero_m(),
    ;

    /// Negation distributes over addition.
    proof fn lemma_neg_add(x: Self::V, y: Self::V)
        requires
            Self::wf(x),
            Self::wf(y),
        ensures
            Self::neg_m(Self::add_m(x, y)) == Self::add_m(Self::neg_m(x), Self::neg_m(y)),
    ;

    /// Multiplication distributes over addition from the left.
    proof fn lemma_mul_distributes_left(x: Self::V, y: Self::V, z: Self::V)
        requires
            Self::wf(x),
            Self::wf(y),
            Self::wf(z),
        ensures
            Self::mul_m(x, Self::add_m(y, z)) == Self::add_m(Self::mul_m(x, y), Self::mul_m(x, z)),
    ;

    /// Multiplication distributes over addition from the right.
    proof fn lemma_mul_distributes_right(x: Self::V, y: Self::V, z: Self::V)
        requires
            Self::wf(x),
            Self::wf(y),
            Self::wf(z),
        ensures
            Self::mul_m(Self::add_m(x, y), z) == Self::add_m(Self::mul_m(x, z), Self::mul_m(y, z)),
    ;

    /// Multiplication is commutative.
    proof fn lemma_mul_comm(x: Self::V, y: Self::V)
        requires
            Self::wf(x),
            Self::wf(y),
        ensures
            Self::mul_m(x, y) == Self::mul_m(y, x),
    ;

    /// Scaling by a scalar of the same type is plain multiplication.
    proof fn lemma_scale_is_mul(x: Self::V, s: Self::V)
        requires
            Self::wf(x),
            Self::wf(s),
        ensures
            Self::scale_m(x, s) == Self::mul_m(x, s),
    ;

    /// Conjugation respects addition.
    proof fn lemma_conj_add(x: Self::V, y: Self::V)
        requires
            Self::wf(x),
            Self::wf(y),
        ensures
            Self::conj_m(Self::add_m(x, y)) == Self::add_m(Self::conj_m(x), Self::conj_m(y)),
    ;
}

/// Computes `a % 7` outright once a witness quotient `q` is named.
proof fn lemma_mod7(a: int, q: int)
    requires
        0 <= a - 7 * q < 7,
    ensures
        a % 7 == a - 7 * q,
{
    vstd::arithmetic::div_mod::lemma_fundamental_div_mod_converse_mod(a, 7, q, a - 7 * q);
}

/// A residue type: an integral value kept reduced modulo a fixed modulus.
///
/// The representative is always the non-negative one, in `[0, modulus)`;
/// `from` reduces on entry, so a negative input names the same residue as
/// its non-negative counterpart.
pub trait Galois: Sized {
    /// The unreduced integral carrier.
    type Inner;

    /// The fixed modulus.
    spec fn modulus() -> int;

    /// The residue a value stands for.
    spec fn res(self) -> int;

    /// The integer a carrier value stands for.
    spec fn inner_int(v: Self::Inner) -> int;

    /// The modulus leaves room for at least the two ring constants.
    proof fn lemma_modulus()
        ensures
            Self::modulus() >= 2,
    ;

    fn from(v: Self::Inner) -> (r: Self)
        ensures
            r.res() == Self::inner_int(v) % Self::modulus(),
            0 <= r.res() < Self::modulus(),
    ;

    fn into(self) -> (r: Self::Inner)
        requires
            0 <= self.res() < Self::modulus(),
        ensures
            Self::inner_int(r) == self.res(),
    ;

    fn add(self, rhs: Self) -> (r: Self)
        requires
            0 <= self.res() < Self::modulus(),
            0 <= rhs.res() < Self::modulus(),
        ensures
            r.res() == (self.res() + rhs.res()) % Self::modulus(),
            0 <= r.res() < Self::modulus(),
    ;

    fn sub(self, rhs: Self) -> (r: Self)
        requires
            0 <= self.res() < Self::modulus(),
            0 <= rhs.res() < Self::modulus(),
        ensures
            r.res() == (self.res() - rhs.res()) % Self::modulus(),
            0 <= r.res() < Self::modulus(),
    ;

    fn mul(self, rhs: Self) -> (r: Self)
        requires
            0 <= self.res() < Self::modulus(),
            0 <= rhs.res() < Self::modulus(),
        ensures
            r.res() == (self.res() * rhs.res()) % Self::modulus(),
            0 <= r.res() < Self::modulus(),
    ;

    /// Division multiplies by the inverse; the divisor must be a nonzero
    /// residue.
    fn div(self, rhs: Self) -> (r: Self)
        requires
            0 <= self.res() < Self::modulus(),
            0 < rhs.res() < Self::modulus(),
        ensures
            (r.res() * rhs.res()) % Self::modulus() == self.res(),
            0 <= r.res() < Self::modulus(),
    ;

    /// The multiplicative inverse. Inverting the zero residue is a domain
    /// error with no recovery, so the contract rules it out.
    fn inv(self) -> (r: Self)
        requires
            0 < self.res() < Self::modulus(),
        ensures
            (self.res() * r.res()) % Self::modulus() == 1,
            0 <= r.res() < Self::modulus(),
    ;
}

/// The multiplicative inverse of `a` for an arbitrary modulus `m`: the
/// least residue `x` with `(a * x) % m == 1`, or `None` exactly when no
/// residue works (as for zero, or an `a` sharing a factor with `m`).
///
/// A fixed inverse table only serves a fixed small modulus; this is the
/// general route.
pub fn mod_inverse(a: u64, m: u64) -> (r: Option<u64>)
    requires
        m >= 2,
    ensures
        r matches Some(x) ==> 0 < x < m && (a as int * x as int) % (m as int) == 1,
        r is None ==> forall|x: int| 0 <= x < m ==> #[trigger] (a as int * x) % (m as int) != 1,
{
    let mut x: u64 = 0;
    while x < m
        invariant
            m >= 2,
            x <= m,
            forall|j: int| 0 <= j < x ==> #[trigger] (a as int * j) % (m as int) != 1,
        decreases m - x,
    {
        proof {
            assert(a as int * x as int <= 0xffffffffffffffffint * 0xffffffffffffffffint)
                by (nonlinear_arith)
                requires
                    a as int <= 0xffffffffffffffffint,
                    x as int <= 0xffffffffffffffffint,
                    0 <= a as int,
                    0 <= x as int,
            ;
        }
        let p: u128 = (a as u128) * (x as u128);
        let rem: u128 = p % (m as u128);
        if rem == 1 {
            proof {
                if x == 0 {
                    assert(a as int * x as int == 0);
                }
            }
            return Some(x);
        }
        x = x + 1;
    }
    None
}

/// The field with seven elements: residues modulo `7`.
#[derive(Clone, Copy, Debug, PartialEq, Eq, Structural)]
pub struct GF7(i8);

impl View for GF7 {
    type V = int;

    closed spec fn view(&self) -> int {
        self.0 as int
    }
}

impl Valid for GF7 {
    open spec fn wf(m: int) -> bool {
        0 <= m < 7
    }
}

impl Magma for GF7 {
    open spec fn mul_m(x: int, y: int) -> int {
        (x * y) % 7
    }

    proof fn lemma_mul_wf(x: int, y: int) {
        lemma_mod_bound(x * y, 7);
    }

    fn mul(&self, rhs: &Self) -> (r: Self) {
        proof {
            assert(0 <= self@ * rhs@ <= 36) by (nonlinear_arith)
                requires
                    0 <= self@ < 7,
                    0 <= rhs@ < 7,
            ;
        }
        let p: i16 = (self.0 as i16) * (rhs.0 as i16);
        GF7((p % 7) as i8)
    }
}

impl Additive for GF7 {
    open spec fn add_m(x: int, y: int) -> int {
        (x + y) % 7
    }

    open spec fn neg_m(x: int) -> int {
        (-x) % 7
    }

    open spec fn sub_m(x: int, y: int) -> int {
        (x - y) % 7
    }

    proof fn lemma_add_wf(x: int, y: int) {
        lemma_mod_bound(x + y, 7);
    }

    proof fn lemma_neg_wf(x: int) {
        lemma_mod_bound(-x, 7);
    }

    proof fn lemma_add_assoc(x: int, y: int, z: int) {
        lemma_add_mod_noop_right(z, x + y, 7);
        lemma_add_mod_noop_right(x, y + z, 7);
    }

    proof fn lemma_add_comm(x: int, y: int) {
    }

    proof fn lemma_neg_neg(x: int) {
        if x == 0 {
            assert((0int) % 7 == 0);
        } else {
            lemma_mod_add_multiples_vanish(-x, 7);
            lemma_small_mod((7 - x) as nat, 7);
            lemma_mod_add_multiples_vanish(x - 7, 7);
            lemma_small_mod(x as nat, 7);
        }
    }

    proof fn lemma_sub_def(x: int, y: int) {
        lemma_add_mod_noop_right(x, -y, 7);
    }

    fn add(&self, rhs: &Self) -> (r: Self) {
        GF7((self.0 + rhs.0) % 7)
    }

    fn neg(&self) -> (r: Self) {
        if self.0 == 0 {
            GF7(0)
        } else {
            proof {
                lemma_mod_add_multiples_vanish(-self@, 7);
                lemma_small_mod((7 - self@) as nat, 7);
            }
            GF7(7 - self.0)
        }
    }

    fn sub(&self, rhs: &Self) -> (r: Self) {
        let d: i8 = self.0 - rhs.0;
        if d < 0 {
            proof {
                lemma_mod_add_multiples_vanish(self@ - rhs@, 7);
                lemma_small_mod((self@ - rhs@ + 7) as nat, 7);
            }
            GF7(d + 7)
        } else {
            proof {
                lemma_small_mod((self@ - rhs@) as nat, 7);
            }
            GF7(d)
        }
    }
}

impl Float<GF7> for GF7 {
    open spec fn scale_m(x: int, s: int) -> int {
        (x * s) % 7
    }

    proof fn lemma_scale_wf(x: int, s: int) {
        lemma_mod_bound(x * s, 7);
    }

    fn scale(&self, s: &GF7) -> (r: Self) {
        proof {
            assert(0 <= self@ * s@ <= 36) by (nonlinear_arith)
                requires
                    0 <= self@ < 7,
                    0 <= s@ < 7,
            ;
        }
        let p: i16 = (self.0 as i16) * (s.0 as i16);
        GF7((p % 7) as i8)
    }
}

impl Zero for GF7 {
    open spec fn zero_m() -> int {
        0
    }

    proof fn lemma_zero_wf() {
    }

    fn zero() -> (r: Self) {
        GF7(0)
    }
}

impl Conjugate for GF7 {
    open spec fn conj_m(x: int) -> int {
        x
    }

    proof fn lemma_conj_wf(x: int) {
    }

    proof fn lemma_conj_conj(x: int) {
    }

    fn conjugate(&self) -> (r: Self) {
        GF7(self.0)
    }
}

impl Field for GF7 {
    proof fn lemma_zero_add(x: int) {
        lemma_small_mod(x as nat, 7);
    }

    proof fn lemma_add_neg(x: int) {
        lemma_add_mod_noop_right(x, -x, 7);
    }

    proof fn lemma_neg_add(x: int, y: int) {
        let s: int = x + y;
        if s < 7 {
            lemma_mod7(s, 0);
        } else {
            lemma_mod7(s, 1);
        }
        let t: int = s % 7;
        if t == 0 {
            lemma_mod7(-t, 0);
        } else {
            lemma_mod7(-t, -1);
        }
        if x == 0 {
            lemma_mod7(-x, 0);
        } else {
            lemma_mod7(-x, -1);
        }
        if y == 0 {
            lemma_mod7(-y, 0);
        } else {
            lemma_mod7(-y, -1);
        }
        let u: int = (-x) % 7 + (-y) % 7;
        if u < 7 {
            lemma_mod7(u, 0);
        } else {
            lemma_mod7(u, 1);
        }
    }

    proof fn lemma_mul_distributes_left(x: int, y: int, z: int) {
        assert(x * (y + z) == x * y + x * z) by (nonlinear_arith);
        lemma_mul_mod_noop_right(x, y + z, 7);
        lemma_add_mod_noop(x * y, x * z, 7);
    }

    proof fn lemma_mul_distributes_right(x: int, y: int, z: int) {
        assert((x + y) * z == x * z + y * z) by (nonlinear_arith);
        lemma_mul_mod_noop_left(x + y, z, 7);
        lemma_add_mod_noop(x * z, y * z, 7);
    }

    proof fn lemma_mul_comm(x: int, y: int) {
        assert(x * y == y * x) by (nonlinear_arith);
    }

    proof fn lemma_scale_is_mul(x: int, s: int) {
    }

    proof fn lemma_conj_add(x: int, y: int) {
    }
}

impl Galois for GF7 {
    type Inner = i8;

    open spec fn modulus() -> int {
        7
    }

    open spec fn res(self) -> int {
        self.view()
    }

    open spec fn inner_int(v: i8) -> int {
        v as int
    }

    proof fn lemma_modulus() {
    }

    fn from(v: i8) -> (r: Self) {
        let t: i8 = v % 7;
        if t < 0 {
            GF7(t + 7)
        } else {
            GF7(t)
        }
    }

    fn into(self) -> (r: i8) {
        self.0
    }

    fn add(self, rhs: Self) -> (r: Self) {
        GF7((self.0 + rhs.0) % 7)
    }

    fn sub(self, rhs: Self) -> (r: Self) {
        let d: i8 = self.0 - rhs.0;
        if d < 0 {
            proof {
                lemma_mod_add_multiples_vanish(self.res() - rhs.res(), 7);
                lemma_small_mod((self.res() - rhs.res() + 7) as nat, 7);
            }
            GF7(d + 7)
        } else {
            proof {
                lemma_small_mod((self.res() - rhs.res()) as nat, 7);
            }
            GF7(d)
        }
    }

    fn mul(self, rhs: Self) -> (r: Self) {
        proof {
            assert(0 <= self.res() * rhs.res() <= 36) by (nonlinear_arith)
                requires
                    0 <= self.res() < 7,
                    0 <= rhs.res() < 7,
            ;
        }
        let p: i16 = (self.0 as i16) * (rhs.0 as i16);
        GF7((p % 7) as i8)
    }

    fn div(self, rhs: Self) -> (r: Self) {
        let i: GF7 = rhs.inv();
        let r: GF7 = Galois::mul(self, i);
        proof {
            lemma_mul_mod_noop_left(self.res() * i.res(), rhs.res(), 7);
            assert(self.res() * i.res() * rhs.res() == self.res() * (rhs.res() * i.res()))
                by (nonlinear_arith);
            lemma_mul_mod_noop_right(self.res(), rhs.res() * i.res(), 7);
            lemma_small_mod(self.res() as nat, 7);
        }
        r
    }

    fn inv(self) -> (r: Self) {
        match self.0 {
            1 => GF7(1),
            2 => GF7(4),
            3 => GF7(5),
            4 => GF7(2),
            5 => GF7(3),
            _ => GF7(6),
        }
    }
}

} // verus!
