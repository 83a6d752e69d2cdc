use snark_verifier::loader::{Instr, LoadedEcPoint, LoadedScalar, Loader, LoaderKind};

#[test]
fn native_field_operations_are_exact() {
    let mut l = Loader::new(LoaderKind::Native, 101);
    let a = l.load_const(70);
    let b = l.load_const(40);
    assert_eq!(l.add(&a, &b).val(), 9);
    assert_eq!(l.sub(&a, &b).val(), 30);
    assert_eq!(l.sub(&b, &a).val(), 71);
    assert_eq!(l.mul(&a, &b).val(), 73); // 2800 mod 101
    assert_eq!(l.neg(&a).val(), 31);
    let inv = l.invert(&a);
    assert_eq!(l.mul(&inv, &a).val(), 1);
    assert!(l.trace.is_empty());
}

#[test]
fn native_point_operations_are_exact() {
    let mut l = Loader::new(LoaderKind::Native, 101);
    let p = l.load_const_point(70);
    let q = l.load_const_point(40);
    let s = l.load_const(3);
    assert_eq!(l.ec_add(&p, &q).val(), 9);
    assert_eq!(l.scalar_mul(&s, &p).val(), 8); // 210 mod 101
}

#[test]
fn symbolic_operations_shadow_native_ones() {
    let mut n = Loader::new(LoaderKind::Native, 101);
    let mut s = Loader::new(LoaderKind::Symbolic, 101);
    let (na, nb) = (n.load_const(70), n.load_const(40));
    let (sa, sb) = (s.load_const(70), s.load_const(40));
    assert_eq!(n.add(&na, &nb).val(), s.add(&sa, &sb).val());
    assert_eq!(n.mul(&na, &nb).val(), s.mul(&sa, &sb).val());
    assert_eq!(n.invert(&na).val(), s.invert(&sa).val());
}

#[test]
fn symbolic_operations_append_one_instruction_each() {
    let mut l = Loader::new(LoaderKind::Symbolic, 101);
    let a = l.load_const(7);
    assert_eq!(l.trace, vec![Instr::Const(7)]);
    let b = l.load_const(9);
    let c = l.add(&a, &b);
    assert_eq!(l.trace.len(), 3);
    assert_eq!(l.trace[2], Instr::Add(0, 1));
    l.neg(&c);
    assert_eq!(l.trace[3], Instr::Neg(2));
    match c {
        LoadedScalar::Symbolic { id, shadow } => {
            assert_eq!(id, 2);
            assert_eq!(shadow, 16);
        },
        LoadedScalar::Native { .. } => panic!("a symbolic loader made a native value"),
    }
}

#[test]
fn pairing_check_decides_natively_and_defers_symbolically() {
    // e(lhs, s_g2) == e(rhs, g2) in exponent form: lhs * s_g2 == rhs * g2
    let mut n = Loader::new(LoaderKind::Native, 101);
    let lhs = n.load_const_point(6);
    let rhs = n.load_const_point(30);
    assert!(n.pairing_check(&lhs, &rhs, 1, 5));
    assert!(!n.pairing_check(&lhs, &rhs, 1, 7));

    let mut s = Loader::new(LoaderKind::Symbolic, 101);
    let lhs = s.load_const_point(6);
    let rhs = s.load_const_point(30);
    // deferred: the check is emitted, not decided, even when it would fail
    assert!(s.pairing_check(&lhs, &rhs, 1, 7));
    assert!(matches!(s.trace.last().unwrap(), Instr::PairingCheck { .. }));
}

#[test]
fn msm_is_the_sum_of_scaled_points() {
    let mut l = Loader::new(LoaderKind::Native, 101);
    let s1 = l.load_const(2);
    let s2 = l.load_const(3);
    let p1 = l.load_const_point(5);
    let p2 = l.load_const_point(7);
    let r = l.msm(&vec![s1, s2], &vec![p1, p2]);
    assert_eq!(r.val(), 31); // 2*5 + 3*7
    assert_eq!(l.msm(&vec![], &vec![]).val(), 0);
}

#[test]
fn point_values_survive_the_backend_tag() {
    let p = LoadedEcPoint::Native { value: 42 };
    assert_eq!(p.val(), 42);
    let q = LoadedEcPoint::Symbolic { id: 0, shadow: 42 };
    assert_eq!(q.val(), 42);
}
