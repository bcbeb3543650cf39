use hypercomplex::galois::{mod_inverse, Galois, GF7};

#[test]
fn gf7_inverses() {
    // Every nonzero residue times its inverse reduces to one.
    let residues: [i8; 6] = [1, 2, 3, 4, 5, 6];
    for v in residues {
        let x = <GF7 as Galois>::from(v);
        let p = Galois::mul(x, x.inv());
        assert_eq!(Galois::into(p), 1);
    }
}

#[test]
fn gf7_from_reduces_non_negative() {
    // The representative is always the non-negative one.
    assert_eq!(Galois::into(<GF7 as Galois>::from(10)), 3);
    assert_eq!(Galois::into(<GF7 as Galois>::from(-3)), 4);
    assert_eq!(Galois::into(<GF7 as Galois>::from(7)), 0);
    assert_eq!(Galois::into(<GF7 as Galois>::from(-7)), 0);
}

#[test]
fn gf7_arithmetic() {
    let three = <GF7 as Galois>::from(3);
    let five = <GF7 as Galois>::from(5);
    assert_eq!(Galois::into(Galois::add(three, five)), 1);
    assert_eq!(Galois::into(Galois::sub(three, five)), 5);
    assert_eq!(Galois::into(Galois::mul(three, five)), 1);
}

#[test]
fn gf7_division() {
    // 3 / 4 = 3 * 2 = 6, and 6 * 4 = 24 = 3 (mod 7).
    let three = <GF7 as Galois>::from(3);
    let four = <GF7 as Galois>::from(4);
    let q = Galois::div(three, four);
    assert_eq!(Galois::into(q), 6);
    assert_eq!(Galois::into(Galois::mul(q, four)), 3);
}

#[test]
fn general_modular_inverse() {
    assert_eq!(mod_inverse(3, 7), Some(5));
    assert_eq!(mod_inverse(0, 7), None);
    assert_eq!(mod_inverse(4, 8), None);
    assert_eq!(mod_inverse(2, 9), Some(5));
    assert_eq!(mod_inverse(1, 2), Some(1));
    // It agrees with the GF(7) table on every nonzero residue.
    for v in 1u64..7 {
        let t = <GF7 as Galois>::from(v as i8).inv();
        assert_eq!(mod_inverse(v, 7), Some(Galois::into(t) as u64));
    }
}

#[test]
fn gf7_inverse_table() {
    let pairs: [(i8, i8); 6] = [(1, 1), (2, 4), (3, 5), (4, 2), (5, 3), (6, 6)];
    for (v, i) in pairs {
        assert_eq!(Galois::into(<GF7 as Galois>::from(v).inv()), i);
    }
}
