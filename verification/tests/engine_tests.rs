use snark_verifier::loader::{Instr, LoadedScalar, Loader, LoaderKind};
use snark_verifier::pcs::{accumulate, finalize, KzgDecidingKey, OpeningClaim};
use snark_verifier::plonk::{check_instances, PlonkVerifier, VerifierState};
use snark_verifier::protocol::{compile, Config, Expr, ProtocolDescriptor, VerifyingKeyData};
use snark_verifier::transcript::Transcript;
use snark_verifier::{aleph_zero_wants_to_verify, Error, TranscriptErrorKind};

/// A 61-bit Mersenne prime, large enough that accidental algebraic
/// collisions in the mutation tests are absurdly unlikely.
const P: u64 = 2305843009213693951;

/// The scheme trapdoor of the synthetic setup; commitments below are
/// exponents, i.e. a commitment to `f` is `f(TAU)`.
const TAU: u64 = 1234567891011;

fn deciding_key() -> KzgDecidingKey {
    KzgDecidingKey { g2: 1, s_g2: TAU }
}

/// A key requiring exactly one instance column of one row, with one witness
/// polynomial opened at one unrotated point, and a single gate forcing the
/// opened evaluation to equal the instance value.
fn simple_vkd() -> VerifyingKeyData {
    VerifyingKeyData {
        modulus: P,
        omega: 1,
        num_instance_columns: 1,
        num_witness: 1,
        num_challenges: 1,
        fixed_commitments: vec![],
        rotations: vec![0],
        queries: vec![(0, 0)],
        gates: vec![Expr::Sum(
            Box::new(Expr::Query(0)),
            Box::new(Expr::Negated(Box::new(Expr::Instance(0, 0)))),
        )],
        permutation_pairs: vec![],
        lookup_pairs: vec![],
        g1: 1,
    }
}

fn simple_protocol() -> ProtocolDescriptor {
    let cfg = Config::kzg().with_num_instance(vec![1]);
    compile(&simple_vkd(), cfg).unwrap()
}

/// A valid proof for `simple_vkd` with instance value 1: the witness
/// polynomial is the constant 1, so its commitment exponent is 1, its
/// evaluation anywhere is 1, and the opening witness is the zero quotient.
fn valid_proof() -> Vec<u64> {
    vec![1, 1, 0]
}

#[test]
fn compile_accepts_the_simple_key() {
    let d = simple_protocol();
    assert_eq!(d.modulus, P);
    assert_eq!(d.num_instance, vec![1]);
    assert_eq!(d.num_witness, 1);
    assert_eq!(d.queries.len(), 1);
    assert_eq!(d.queries[0].poly, 0);
    assert_eq!(d.queries[0].shift, 1); // omega^0
}

#[test]
fn compile_rejects_degenerate_modulus() {
    let mut vkd = simple_vkd();
    vkd.modulus = 1;
    let r = compile(&vkd, Config::kzg().with_num_instance(vec![1]));
    assert!(matches!(r, Err(Error::InvalidProtocol(_))));
}

#[test]
fn compile_rejects_instance_shape_mismatch() {
    let r = compile(&simple_vkd(), Config::kzg().with_num_instance(vec![1, 1]));
    assert!(matches!(r, Err(Error::InvalidProtocol(_))));
    let r = compile(&simple_vkd(), Config::kzg());
    assert!(matches!(r, Err(Error::InvalidProtocol(_))));
}

#[test]
fn compile_rejects_rotation_outside_declared_set() {
    let mut vkd = simple_vkd();
    vkd.queries = vec![(0, 1)];
    let r = compile(&vkd, Config::kzg().with_num_instance(vec![1]));
    assert!(matches!(r, Err(Error::InvalidProtocol(_))));
}

#[test]
fn compile_rejects_query_on_missing_polynomial() {
    let mut vkd = simple_vkd();
    vkd.queries = vec![(5, 0)];
    let r = compile(&vkd, Config::kzg().with_num_instance(vec![1]));
    assert!(matches!(r, Err(Error::InvalidProtocol(_))));
}

#[test]
fn compile_rejects_gate_on_missing_query() {
    let mut vkd = simple_vkd();
    vkd.gates = vec![Expr::Query(3)];
    let r = compile(&vkd, Config::kzg().with_num_instance(vec![1]));
    assert!(matches!(r, Err(Error::InvalidProtocol(_))));
}

#[test]
fn compile_rejects_non_canonical_gate_constant() {
    let mut vkd = simple_vkd();
    vkd.gates = vec![Expr::Constant(P)];
    let r = compile(&vkd, Config::kzg().with_num_instance(vec![1]));
    assert!(matches!(r, Err(Error::InvalidProtocol(_))));
}

#[test]
fn compile_rejects_permutation_pair_on_missing_query() {
    let mut vkd = simple_vkd();
    vkd.permutation_pairs = vec![(0, 4)];
    let r = compile(&vkd, Config::kzg().with_num_instance(vec![1]));
    assert!(matches!(r, Err(Error::InvalidProtocol(_))));
}

#[test]
fn end_to_end_native_accepts_valid_proof() {
    let d = simple_protocol();
    let (state, l, res) = PlonkVerifier::run(
        LoaderKind::Native,
        &d,
        &deciding_key(),
        &vec![vec![1]],
        valid_proof(),
    );
    assert!(res.is_ok());
    assert_eq!(state, VerifierState::Accepted);
    assert!(l.trace.is_empty());
}

#[test]
fn end_to_end_symbolic_emits_well_formed_trace() {
    let d = simple_protocol();
    let (state, l, res) = PlonkVerifier::run(
        LoaderKind::Symbolic,
        &d,
        &deciding_key(),
        &vec![vec![1]],
        valid_proof(),
    );
    assert!(res.is_ok());
    assert_eq!(state, VerifierState::Accepted);
    assert!(!l.trace.is_empty());
    assert!(matches!(l.trace.last().unwrap(), Instr::PairingCheck { .. }));
    // well-formed: every operand refers to a strictly earlier instruction
    for (idx, i) in l.trace.iter().enumerate() {
        let ok = match *i {
            Instr::Add(a, b)
            | Instr::Sub(a, b)
            | Instr::Mul(a, b)
            | Instr::PointAdd(a, b)
            | Instr::ScalarMul(a, b) => a < idx && b < idx,
            Instr::Neg(a) | Instr::Inv(a) => a < idx,
            Instr::PairingCheck { lhs, rhs, .. } => lhs < idx && rhs < idx,
            _ => true,
        };
        assert!(ok);
    }
}

#[test]
fn empty_instance_column_is_rejected_before_reading_proof() {
    let d = simple_protocol();
    let (state, l, res) = PlonkVerifier::run(
        LoaderKind::Native,
        &d,
        &deciding_key(),
        &vec![vec![]],
        valid_proof(),
    );
    assert!(matches!(res, Err(Error::InvalidInstances)));
    assert_eq!(state, VerifierState::Rejected);
    assert!(l.trace.is_empty());
}

#[test]
fn wrong_number_of_instance_columns_is_rejected() {
    let d = simple_protocol();
    let (_, _, res) = PlonkVerifier::run(
        LoaderKind::Native,
        &d,
        &deciding_key(),
        &vec![],
        valid_proof(),
    );
    assert!(matches!(res, Err(Error::InvalidInstances)));
    let (_, _, res) = PlonkVerifier::run(
        LoaderKind::Native,
        &d,
        &deciding_key(),
        &vec![vec![1], vec![1]],
        valid_proof(),
    );
    assert!(matches!(res, Err(Error::InvalidInstances)));
}

#[test]
fn non_canonical_instance_value_is_rejected() {
    let d = simple_protocol();
    assert!(!check_instances(&d, &vec![vec![P]]));
    let (_, _, res) = PlonkVerifier::run(
        LoaderKind::Native,
        &d,
        &deciding_key(),
        &vec![vec![P]],
        valid_proof(),
    );
    assert!(matches!(res, Err(Error::InvalidInstances)));
}

#[test]
fn truncated_proof_fails_with_unexpected_end() {
    let d = simple_protocol();
    let (_, _, res) = PlonkVerifier::run(
        LoaderKind::Native,
        &d,
        &deciding_key(),
        &vec![vec![1]],
        vec![1, 1],
    );
    assert!(matches!(
        res,
        Err(Error::Transcript(TranscriptErrorKind::UnexpectedEnd, _))
    ));
}

#[test]
fn overlong_proof_fails_with_invalid_data() {
    let d = simple_protocol();
    let (_, _, res) = PlonkVerifier::run(
        LoaderKind::Native,
        &d,
        &deciding_key(),
        &vec![vec![1]],
        vec![1, 1, 0, 7],
    );
    assert!(matches!(
        res,
        Err(Error::Transcript(TranscriptErrorKind::InvalidData, _))
    ));
}

#[test]
fn non_canonical_proof_element_fails_with_invalid_data() {
    let d = simple_protocol();
    let (_, _, res) = PlonkVerifier::run(
        LoaderKind::Native,
        &d,
        &deciding_key(),
        &vec![vec![1]],
        vec![P, 1, 0],
    );
    assert!(matches!(
        res,
        Err(Error::Transcript(TranscriptErrorKind::InvalidData, _))
    ));
}

#[test]
fn gate_residual_fails_as_assertion_failure() {
    let d = simple_protocol();
    let (state, _, res) = PlonkVerifier::run(
        LoaderKind::Native,
        &d,
        &deciding_key(),
        &vec![vec![2]],
        valid_proof(),
    );
    assert!(matches!(res, Err(Error::AssertionFailure(_))));
    assert_eq!(state, VerifierState::Rejected);
}

#[test]
fn determinism_repeated_native_runs_agree() {
    let d = simple_protocol();
    for _ in 0..3 {
        let (s1, _, r1) = PlonkVerifier::run(
            LoaderKind::Native,
            &d,
            &deciding_key(),
            &vec![vec![1]],
            valid_proof(),
        );
        let (s2, _, r2) = PlonkVerifier::run(
            LoaderKind::Native,
            &d,
            &deciding_key(),
            &vec![vec![1]],
            valid_proof(),
        );
        assert_eq!(s1, s2);
        assert_eq!(r1.is_ok(), r2.is_ok());
    }
    assert_eq!(challenges_under(LoaderKind::Native), challenges_under(LoaderKind::Native));
}

/// Derive the full challenge sequence for the standard inputs under the
/// given backend, comparing symbolic values by their shadows.
fn challenges_under(kind: LoaderKind) -> Vec<u64> {
    let d = simple_protocol();
    let mut l = Loader::new(kind, d.modulus);
    let mut t = Transcript::new(&mut l, valid_proof());
    t.load_instances(&mut l, &vec![1]);
    let pf = PlonkVerifier::read_proof(&mut l, &d, &mut t).unwrap();
    let mut out: Vec<u64> = Vec::new();
    for c in pf.challenges.iter() {
        out.push(c.val());
    }
    out.push(pf.x.val());
    out.push(pf.u.val());
    out
}

#[test]
fn cross_backend_challenge_sequences_are_identical() {
    assert_eq!(
        challenges_under(LoaderKind::Native),
        challenges_under(LoaderKind::Symbolic)
    );
    let d = simple_protocol();
    let (_, _, rn) = PlonkVerifier::run(
        LoaderKind::Native,
        &d,
        &deciding_key(),
        &vec![vec![1]],
        valid_proof(),
    );
    let (_, _, rs) = PlonkVerifier::run(
        LoaderKind::Symbolic,
        &d,
        &deciding_key(),
        &vec![vec![1]],
        valid_proof(),
    );
    assert!(rn.is_ok() && rs.is_ok());
}

#[test]
fn soundness_every_single_bit_flip_rejects() {
    let d = simple_protocol();
    let good = valid_proof();
    for pos in 0..good.len() {
        for bit in 0..64 {
            let mut bad = good.clone();
            bad[pos] ^= 1u64 << bit;
            let (_, _, res) = PlonkVerifier::run(
                LoaderKind::Native,
                &d,
                &deciding_key(),
                &vec![vec![1]],
                bad,
            );
            assert!(
                matches!(res, Err(Error::AssertionFailure(_)) | Err(Error::Transcript(_, _))),
                "a mutated proof was accepted"
            );
        }
    }
}

#[test]
fn accumulator_linearity_two_claims_batch_as_one() {
    // Two independently valid openings of constant polynomials 4 and 9 at
    // points 3 and 8: each witness quotient is zero.
    let mut l = Loader::new(LoaderKind::Native, P);
    let claim = |cm: u64, z: u64, v: u64, w: u64| OpeningClaim {
        commitment: snark_verifier::loader::LoadedEcPoint::Native { value: cm },
        point: LoadedScalar::Native { value: z },
        value: LoadedScalar::Native { value: v },
        witness: snark_verifier::loader::LoadedEcPoint::Native { value: w },
    };
    let c1 = claim(4, 3, 4, 0);
    let c2 = claim(9, 8, 9, 0);
    let u = LoadedScalar::Native { value: 12345 };
    let dk = deciding_key();

    // each claim alone passes its pairing check
    let a1 = accumulate(&mut l, 1, &vec![c1], &u);
    assert!(finalize(&mut l, &a1, &dk));
    let a2 = accumulate(&mut l, 1, &vec![c2], &u);
    assert!(finalize(&mut l, &a2, &dk));

    // and so does the batch of both under the same coefficient
    let a12 = accumulate(&mut l, 1, &vec![c1, c2], &u);
    assert!(finalize(&mut l, &a12, &dk));

    // while a batch holding one corrupted claim fails
    let bad = claim(4, 3, 5, 0);
    let a_bad = accumulate(&mut l, 1, &vec![bad, c2], &u);
    assert!(!finalize(&mut l, &a_bad, &dk));
}

#[test]
fn fixed_commitment_queries_verify() {
    // One fixed polynomial (the constant 4) and no witness: the proof only
    // carries the evaluation and the zero opening witness.
    let vkd = VerifyingKeyData {
        modulus: P,
        omega: 1,
        num_instance_columns: 0,
        num_witness: 0,
        num_challenges: 0,
        fixed_commitments: vec![4],
        rotations: vec![0],
        queries: vec![(0, 0)],
        gates: vec![Expr::Sum(
            Box::new(Expr::Query(0)),
            Box::new(Expr::Negated(Box::new(Expr::Constant(4)))),
        )],
        permutation_pairs: vec![],
        lookup_pairs: vec![],
        g1: 1,
    };
    let d = compile(&vkd, Config::kzg()).unwrap();
    let (_, _, res) = PlonkVerifier::run(
        LoaderKind::Native,
        &d,
        &deciding_key(),
        &vec![],
        vec![4, 0],
    );
    assert!(res.is_ok());
}

#[test]
fn permutation_and_lookup_layouts_are_enforced() {
    let vkd = VerifyingKeyData {
        modulus: P,
        omega: 1,
        num_instance_columns: 0,
        num_witness: 2,
        num_challenges: 0,
        fixed_commitments: vec![],
        rotations: vec![0],
        queries: vec![(0, 0), (1, 0)],
        gates: vec![],
        permutation_pairs: vec![(0, 1)],
        lookup_pairs: vec![(1, 0)],
        g1: 1,
    };
    let d = compile(&vkd, Config::kzg()).unwrap();
    // both witness polynomials the constant 6: evaluations agree
    let (_, _, res) = PlonkVerifier::run(
        LoaderKind::Native,
        &d,
        &deciding_key(),
        &vec![],
        vec![6, 6, 6, 6, 0, 0],
    );
    assert!(res.is_ok());
    // diverging evaluations break the permutation identity
    let (_, _, res) = PlonkVerifier::run(
        LoaderKind::Native,
        &d,
        &deciding_key(),
        &vec![],
        vec![6, 6, 6, 7, 0, 0],
    );
    assert!(matches!(res, Err(Error::AssertionFailure(_))));
}

#[test]
fn pairing_failure_rejects_natively_and_defers_symbolically() {
    // every algebraic identity holds, but the opening witness is wrong, so
    // only the final pairing equality fails
    let d = simple_protocol();
    let bad_opening = vec![1, 1, 5];
    let (state, _, res) = PlonkVerifier::run(
        LoaderKind::Native,
        &d,
        &deciding_key(),
        &vec![vec![1]],
        bad_opening.clone(),
    );
    assert!(matches!(res, Err(Error::AssertionFailure(_))));
    assert_eq!(state, VerifierState::Rejected);

    // a symbolic run leaves the pairing as a deferred check in its trace
    let (_, l, res) = PlonkVerifier::run(
        LoaderKind::Symbolic,
        &d,
        &deciding_key(),
        &vec![vec![1]],
        bad_opening,
    );
    assert!(res.is_ok());
    assert!(matches!(l.trace.last().unwrap(), Instr::PairingCheck { .. }));
}

#[test]
fn facade_emits_a_trace_for_the_simple_key() {
    let r = aleph_zero_wants_to_verify(
        &simple_vkd(),
        &deciding_key(),
        &vec![vec![1]],
        valid_proof(),
    );
    let trace = r.unwrap();
    assert!(!trace.is_empty());
    assert!(matches!(trace.last().unwrap(), Instr::PairingCheck { .. }));
}

#[test]
fn facade_rejects_inconsistent_keys_and_instances() {
    let mut vkd = simple_vkd();
    vkd.num_instance_columns = 2;
    let r = aleph_zero_wants_to_verify(&vkd, &deciding_key(), &vec![vec![1]], valid_proof());
    assert!(matches!(r, Err(Error::InvalidProtocol(_))));

    let r = aleph_zero_wants_to_verify(
        &simple_vkd(),
        &deciding_key(),
        &vec![vec![]],
        valid_proof(),
    );
    assert!(matches!(r, Err(Error::InvalidInstances)));
}
