use hypercomplex::cayley::{CayleyPair, Zero};
use hypercomplex::galois::{Galois, GF7};
use hypercomplex::tensor::{
    Additive, Column, Contravariant, Covariant, Float, LengthMismatch, Row, Vector,
};

fn g(v: i8) -> GF7 {
    <GF7 as Galois>::from(v)
}

type Rank2Cov = Vector<GF7, Row<GF7, 3>, 3, Covariant>;
type Rank3Cov = Vector<GF7, Rank2Cov, 3, Covariant>;
type Rank2Contra = Vector<GF7, Column<GF7, 3>, 3, Contravariant>;

fn row3(a: i8, b: i8, c: i8) -> Row<GF7, 3> {
    Vector::from_vec(vec![g(a), g(b), g(c)]).unwrap()
}

fn col3(a: i8, b: i8, c: i8) -> Column<GF7, 3> {
    Vector::from_vec(vec![g(a), g(b), g(c)]).unwrap()
}

// The rank-3 Levi-Civita tensor in three dimensions, with -1 = 6 in GF(7).
fn e3() -> Rank3Cov {
    let m0: Rank2Cov =
        Vector::from_vec(vec![row3(0, 0, 0), row3(0, 0, 1), row3(0, 6, 0)]).unwrap();
    let m1: Rank2Cov =
        Vector::from_vec(vec![row3(0, 0, 6), row3(0, 0, 0), row3(1, 0, 0)]).unwrap();
    let m2: Rank2Cov =
        Vector::from_vec(vec![row3(0, 1, 0), row3(6, 0, 0), row3(0, 0, 0)]).unwrap();
    Vector::from_vec(vec![m0, m1, m2]).unwrap()
}

// The identity metric with two upper indices.
fn metric3() -> Rank2Contra {
    let c0 = col3(1, 0, 0);
    let c1 = col3(0, 1, 0);
    let c2 = col3(0, 0, 1);
    Vector::from_vec(vec![c0, c1, c2]).unwrap()
}

#[test]
fn from_vec_rejects_wrong_length() {
    let short: Result<Row<GF7, 3>, LengthMismatch> = Vector::from_vec(vec![g(1), g(2)]);
    assert!(matches!(short, Err(LengthMismatch)));
    let long: Result<Row<GF7, 3>, LengthMismatch> =
        Vector::from_vec(vec![g(1), g(2), g(3), g(4)]);
    assert!(matches!(long, Err(LengthMismatch)));
    let exact: Result<Row<GF7, 3>, LengthMismatch> = Vector::from_vec(vec![g(1), g(2), g(3)]);
    assert!(exact.is_ok());
}

#[test]
fn inner_matches_append_trace() {
    let r: Row<GF7, 3> = Vector::from_vec(vec![g(0), g(1), g(2)]).unwrap();
    let c: Column<GF7, 3> = Vector::from_vec(vec![g(0), g(4), g(1)]).unwrap();
    let grid: Vector<GF7, Column<GF7, 3>, 3, Covariant> = r.append(&c);
    // 0*0 + 1*4 + 2*1 = 6 (mod 7).
    assert_eq!(r.inner(&c), g(6));
    assert_eq!(r.inner(&c), grid.trace());
}

#[test]
fn inner_contravariant_side() {
    let r: Row<GF7, 3> = Vector::from_vec(vec![g(0), g(1), g(2)]).unwrap();
    let c: Column<GF7, 3> = Vector::from_vec(vec![g(0), g(4), g(1)]).unwrap();
    assert_eq!(c.inner(&r), g(6));
    let grid: Vector<GF7, Row<GF7, 3>, 3, hypercomplex::tensor::Contravariant> = c.append(&r);
    assert_eq!(c.inner(&r), grid.trace());
}

#[test]
fn elementwise_ops() {
    let x: Row<GF7, 3> = Vector::from_vec(vec![g(1), g(2), g(3)]).unwrap();
    let y: Row<GF7, 3> = Vector::from_vec(vec![g(6), g(6), g(6)]).unwrap();
    let s = x.add(&y);
    assert_eq!(*s.get(0), g(0));
    assert_eq!(*s.get(1), g(1));
    assert_eq!(*s.get(2), g(2));
    let d = x.sub(&y);
    assert_eq!(*d.get(0), g(2));
    assert_eq!(*d.get(1), g(3));
    assert_eq!(*d.get(2), g(4));
    let n = x.neg();
    assert_eq!(*n.get(0), g(6));
    assert_eq!(*n.get(1), g(5));
    assert_eq!(*n.get(2), g(4));
    let sc = x.scale(&g(3));
    assert_eq!(*sc.get(0), g(3));
    assert_eq!(*sc.get(1), g(6));
    assert_eq!(*sc.get(2), g(2));
}

#[test]
fn vector_assign_variants() {
    let y: Row<GF7, 2> = Vector::from_vec(vec![g(3), g(4)]).unwrap();
    let mut a: Row<GF7, 2> = Vector::from_vec(vec![g(1), g(2)]).unwrap();
    a.add_assign(&y);
    assert_eq!(*a.get(0), g(4));
    assert_eq!(*a.get(1), g(6));
    let mut b: Row<GF7, 2> = Vector::from_vec(vec![g(1), g(2)]).unwrap();
    b.sub_assign(&y);
    assert_eq!(*b.get(0), g(5));
    assert_eq!(*b.get(1), g(5));
    let mut m: Row<GF7, 2> = Vector::from_vec(vec![g(1), g(2)]).unwrap();
    m.mul_assign(&g(5));
    assert_eq!(*m.get(0), g(5));
    assert_eq!(*m.get(1), g(3));
}

#[test]
fn zero_vector() {
    let z: Row<GF7, 3> = Zero::zero();
    assert_eq!(*z.get(0), g(0));
    assert_eq!(*z.get(1), g(0));
    assert_eq!(*z.get(2), g(0));
    let d: Row<GF7, 3> = Default::default();
    assert_eq!(*d.get(0), g(0));
    assert_eq!(*d.get(1), g(0));
    assert_eq!(*d.get(2), g(0));
}

#[test]
fn levi_civita_cross_product() {
    // The cross product of two vectors in the plane, by double contraction
    // with the Levi-Civita tensor: (3, 4, 0) x (4, 4, 0) has only a third
    // component, 3*4 - 4*4 = -4 = 3 (mod 7).
    let a = col3(3, 4, 0);
    let b = col3(4, 4, 0);
    let cross: Row<GF7, 3> = e3().inner(&a).inner(&b);
    assert_eq!(*cross.get(0), g(0));
    assert_eq!(*cross.get(1), g(0));
    assert_eq!(*cross.get(2), g(3));
    // Raising the index with the metric and contracting with itself gives
    // the squared magnitude, 9 = 2 (mod 7).
    let cross_up: Column<GF7, 3> = metric3().inner(&cross);
    assert_eq!(cross_up.inner(&cross), g(2));
}

#[test]
fn vector_of_pairs() {
    // A rank-1 tensor whose elements are complex numbers over GF(7).
    let p1 = CayleyPair { a: g(1), b: g(2) };
    let p2 = CayleyPair { a: g(3), b: g(4) };
    let v: Vector<GF7, CayleyPair<GF7>, 2, Covariant> =
        Vector::from_vec(vec![p1, p2]).unwrap();
    let c: Column<GF7, 2> = Vector::from_vec(vec![g(2), g(3)]).unwrap();
    // (1,2)*2 + (3,4)*3 = (2,4) + (2,5) = (4,2).
    assert_eq!(v.inner(&c), CayleyPair { a: g(4), b: g(2) });
}
