use hypercomplex::cayley::{CayleyPair, Conjugate, Zero};
use hypercomplex::galois::{Galois, GF7};
use hypercomplex::tensor::{Additive, Magma};

#[test]
fn octonion() {
    let a = CayleyPair::from_real(CayleyPair::imagine(CayleyPair::from_real(
        <GF7 as Galois>::from(3),
    )));
    let b = CayleyPair::from_real(CayleyPair::from_real(CayleyPair::imagine(
        <GF7 as Galois>::from(4),
    )));
    let c = CayleyPair::from_real(CayleyPair::imagine(CayleyPair::imagine(
        <GF7 as Galois>::from(2),
    )));
    assert_eq!(c, a.mul(&b));
}

#[test]
fn complex_i_squared() {
    // In the complex numbers over GF(7), i * i = -1 = 6.
    let i = CayleyPair::imagine(<GF7 as Galois>::from(1));
    let minus_one = CayleyPair::from_real(<GF7 as Galois>::from(6));
    assert_eq!(minus_one, i.mul(&i));
}

#[test]
fn conjugate_involution() {
    let p = CayleyPair {
        a: <GF7 as Galois>::from(3),
        b: <GF7 as Galois>::from(5),
    };
    assert_eq!(p, p.conjugate().conjugate());
}

#[test]
fn conjugate_negates_imaginary() {
    let p = CayleyPair {
        a: <GF7 as Galois>::from(3),
        b: <GF7 as Galois>::from(5),
    };
    let q = CayleyPair {
        a: <GF7 as Galois>::from(3),
        b: <GF7 as Galois>::from(2),
    };
    assert_eq!(q, p.conjugate());
}

#[test]
fn pair_add_neg_is_zero() {
    let p = CayleyPair {
        a: <GF7 as Galois>::from(2),
        b: <GF7 as Galois>::from(6),
    };
    let z: CayleyPair<GF7> = Zero::zero();
    assert_eq!(z, p.add(&p.neg()));
}

#[test]
fn pair_add_assoc_example() {
    let x = CayleyPair {
        a: <GF7 as Galois>::from(2),
        b: <GF7 as Galois>::from(3),
    };
    let y = CayleyPair {
        a: <GF7 as Galois>::from(6),
        b: <GF7 as Galois>::from(5),
    };
    let z = CayleyPair {
        a: <GF7 as Galois>::from(4),
        b: <GF7 as Galois>::from(1),
    };
    assert_eq!(x.add(&y).add(&z), x.add(&y.add(&z)));
}

#[test]
fn pair_mul_distributes_example() {
    let x = CayleyPair {
        a: <GF7 as Galois>::from(2),
        b: <GF7 as Galois>::from(3),
    };
    let y = CayleyPair {
        a: <GF7 as Galois>::from(6),
        b: <GF7 as Galois>::from(5),
    };
    let z = CayleyPair {
        a: <GF7 as Galois>::from(4),
        b: <GF7 as Galois>::from(1),
    };
    assert_eq!(x.mul(&y.add(&z)), x.mul(&y).add(&x.mul(&z)));
}

#[test]
fn pair_sub_matches_add_neg() {
    let x = CayleyPair {
        a: <GF7 as Galois>::from(1),
        b: <GF7 as Galois>::from(4),
    };
    let y = CayleyPair {
        a: <GF7 as Galois>::from(5),
        b: <GF7 as Galois>::from(2),
    };
    assert_eq!(x.sub(&y), x.add(&y.neg()));
}

#[test]
fn pair_assign_variants() {
    let x = CayleyPair {
        a: <GF7 as Galois>::from(1),
        b: <GF7 as Galois>::from(4),
    };
    let y = CayleyPair {
        a: <GF7 as Galois>::from(5),
        b: <GF7 as Galois>::from(2),
    };
    let mut s = x.clone();
    s.add_assign(&y);
    assert_eq!(s, x.add(&y));
    let mut d = x.clone();
    d.sub_assign(&y);
    assert_eq!(d, x.sub(&y));
    let mut m = x.clone();
    m.mul_assign(&y);
    assert_eq!(m, x.mul(&y));
}

#[test]
fn embeddings() {
    let x = <GF7 as Galois>::from(5);
    let z = <GF7 as Galois>::from(0);
    assert_eq!(CayleyPair { a: x, b: z }, CayleyPair::from_real(x));
    assert_eq!(CayleyPair { a: z, b: x }, CayleyPair::imagine(x));
}
