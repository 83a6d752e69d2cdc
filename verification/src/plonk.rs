//! The verifier orchestrator: a single-pass state machine from
//! `Uninitialized` to `Accepted` or `Rejected`.
//!
//! The whole decision is pinned, for every input, by the spec-level pipeline
//! in this module: [`outcome`] re-derives the accept/reject result and every
//! intermediate value (challenges, evaluation point, batching coefficient)
//! as a pure function of the protocol, the deciding key, the instances and
//! the proof stream. The executable verifier is proved to return exactly
//! that outcome, which makes determinism and cross-backend challenge
//! equivalence structural properties rather than empirical ones.

use vstd::prelude::*;
use crate::arith::{f_mul, lemma_f_sub_zero};
use crate::loader::{
    step_ok, trace_extends, Instr, LoadedEcPoint, LoadedScalar, Loader, LoaderKind,
};
use crate::pcs::{
    accumulate, claims_wf, claim_vals, finalize, horner, lhs_terms, pairing_holds, rhs_terms,
    Accumulator, ClaimVals, KzgDecidingKey, OpeningClaim,
};
use crate::protocol::{
    columns_wf, counts_of, eval_expr, evaluate, loaded_vals, loaded_vals2, scalars_wf, shape_of,
    DescriptorView, ProtocolDescriptor,
};
use crate::transcript::{
    ts_absorb_seq, ts_challenges, ts_init, ts_squeeze, ts_squeeze_n, Transcript,
};
use crate::{Error, TranscriptErrorKind};

verus! {

/// One decimal digit as text.
fn digit_str(d: u64) -> (s: &'static str)
    requires
        d < 10,
{
    if d == 0 {
        "0"
    } else if d == 1 {
        "1"
    } else if d == 2 {
        "2"
    } else if d == 3 {
        "3"
    } else if d == 4 {
        "4"
    } else if d == 5 {
        "5"
    } else if d == 6 {
        "6"
    } else if d == 7 {
        "7"
    } else if d == 8 {
        "8"
    } else {
        "9"
    }
}

/// The decimal text of an identity identifier, for error descriptions.
fn decimal_string(n: u64) -> (s: String) {
    if n == 0 {
        return String::from_str("0");
    }
    let mut digits: Vec<u64> = Vec::new();
    let mut m = n;
    while m > 0
        invariant
            forall|j: int| 0 <= j < digits@.len() ==> #[trigger] digits@[j] < 10,
        decreases m,
    {
        digits.push(m % 10);
        m = m / 10;
    }
    let mut s = String::from_str("");
    let mut i: usize = digits.len();
    while i > 0
        invariant
            i <= digits@.len(),
            forall|j: int| 0 <= j < digits@.len() ==> #[trigger] digits@[j] < 10,
        decreases i,
    {
        i = i - 1;
        s.append(digit_str(digits[i]));
    }
    s
}

/// The states of one verification run. The machine is single-pass: a failed
/// run stops at `Rejected` and must be restarted from `Uninitialized` with a
/// fresh transcript.
#[derive(Clone, Copy, Debug, PartialEq, Eq, Structural)]
pub enum VerifierState {
    /// Nothing has happened yet.
    Uninitialized,
    /// Instance values were validated against the protocol and absorbed.
    InstancesLoaded,
    /// All proof elements described by the protocol were read, in order.
    ProofRead,
    /// All protocol-mandated challenges were squeezed, in order.
    ChallengesDerived,
    /// Every gate, permutation and lookup identity held.
    ConstraintsChecked,
    /// All opening claims were folded and the accumulator resolved.
    AccumulatorFinalized,
    /// Terminal success.
    Accepted,
    /// Terminal failure.
    Rejected,
}

/// Why a run ends the way it does, in the order the checks happen.
#[derive(Clone, Copy, Debug, PartialEq, Eq, Structural)]
pub enum Outcome {
    /// The instance vector does not match the protocol's declared shape.
    BadInstances,
    /// The proof stream is truncated, overlong or non-canonical.
    BadProof,
    /// Some algebraic identity has a non-zero residual.
    BadIdentity,
    /// The final batched pairing equality fails (native mode only).
    BadPairing,
    /// The proof verifies.
    Accept,
}

/// A sequence of stream words as field values.
pub open spec fn nat_seq(s: Seq<u64>) -> Seq<nat> {
    s.map(|i: int, x: u64| x as nat)
}

/// Instance columns as field values.
pub open spec fn inst_vals(inst: Seq<Vec<u64>>) -> Seq<Seq<nat>> {
    inst.map(|i: int, c: Vec<u64>| nat_seq(c@))
}

/// The values of a sequence of loaded points.
pub open spec fn point_vals(s: Seq<LoadedEcPoint>) -> Seq<nat> {
    s.map(|i: int, x: LoadedEcPoint| x.value())
}

/// All points of a sequence are owned by the given loader.
pub open spec fn points_wf(s: Seq<LoadedEcPoint>, l: Loader) -> bool {
    forall|i: int| 0 <= i < s.len() ==> (#[trigger] s[i]).wf(l)
}

/// The supplied instances match the protocol's declared shape, with every
/// value canonical.
pub open spec fn instances_ok(dv: DescriptorView, inst: Seq<Vec<u64>>) -> bool {
    &&& inst.len() == dv.num_instance.len()
    &&& forall|c: int|
        0 <= c < inst.len() ==> (#[trigger] inst[c])@.len() == dv.num_instance[c] as nat
    &&& forall|c: int, r: int|
        0 <= c < inst.len() && 0 <= r < inst[c]@.len() ==> (#[trigger] inst[c]@[r]) < dv.modulus
}

/// The proof stream holds exactly the elements the protocol describes, all
/// canonical.
pub open spec fn proof_shape_ok(dv: DescriptorView, proof: Seq<u64>) -> bool {
    &&& proof.len() == dv.num_witness as nat + dv.queries.len() + dv.queries.len()
    &&& forall|i: int| 0 <= i < proof.len() ==> #[trigger] proof[i] < dv.modulus
}

/// Sponge state after absorbing the instance columns in order.
pub open spec fn absorb_columns(p: nat, s: nat, cols: Seq<Vec<u64>>) -> nat
    decreases cols.len(),
{
    if cols.len() == 0 {
        s
    } else {
        ts_absorb_seq(p, absorb_columns(p, s, cols.drop_last()), cols.last()@)
    }
}

/// Sponge state once all instances are loaded.
pub open spec fn state_after_instances(dv: DescriptorView, inst: Seq<Vec<u64>>) -> nat {
    absorb_columns(dv.modulus as nat, ts_init(dv.modulus as nat), inst)
}

/// Sponge state once the witness commitments are read and absorbed.
pub open spec fn state_after_witness(dv: DescriptorView, inst: Seq<Vec<u64>>, proof: Seq<u64>) -> nat {
    ts_absorb_seq(
        dv.modulus as nat,
        state_after_instances(dv, inst),
        proof.subrange(0, dv.num_witness as int),
    )
}

/// The protocol-mandated challenge sequence.
pub open spec fn challenge_vals(dv: DescriptorView, inst: Seq<Vec<u64>>, proof: Seq<u64>) -> Seq<
    nat,
> {
    ts_challenges(
        dv.modulus as nat,
        state_after_witness(dv, inst, proof),
        dv.num_challenges as nat,
    )
}

/// The evaluation-point challenge, squeezed right after the others.
pub open spec fn x_val(dv: DescriptorView, inst: Seq<Vec<u64>>, proof: Seq<u64>) -> nat {
    ts_squeeze_n(
        dv.modulus as nat,
        state_after_witness(dv, inst, proof),
        dv.num_challenges as nat + 1,
    )
}

/// The witness commitments carried by the proof.
pub open spec fn witness_vals(dv: DescriptorView, proof: Seq<u64>) -> Seq<nat> {
    nat_seq(proof.subrange(0, dv.num_witness as int))
}

/// The claimed evaluations carried by the proof.
pub open spec fn eval_vals(dv: DescriptorView, proof: Seq<u64>) -> Seq<nat> {
    nat_seq(
        proof.subrange(
            dv.num_witness as int,
            dv.num_witness as int + dv.queries.len() as int,
        ),
    )
}

/// The opening witnesses carried by the proof.
pub open spec fn opening_vals(dv: DescriptorView, proof: Seq<u64>) -> Seq<nat> {
    nat_seq(
        proof.subrange(
            dv.num_witness as int + dv.queries.len() as int,
            dv.num_witness as int + 2 * dv.queries.len() as int,
        ),
    )
}

/// The opening-batching challenge, squeezed after the evaluations.
pub open spec fn u_val(dv: DescriptorView, inst: Seq<Vec<u64>>, proof: Seq<u64>) -> nat {
    ts_squeeze(
        dv.modulus as nat,
        ts_absorb_seq(
            dv.modulus as nat,
            x_val(dv, inst, proof),
            proof.subrange(
                dv.num_witness as int,
                dv.num_witness as int + dv.queries.len() as int,
            ),
        ),
    )
}

/// Every gate identity evaluates to zero.
pub open spec fn gates_ok_vals(
    dv: DescriptorView,
    iv: Seq<Seq<nat>>,
    ev: Seq<nat>,
    cv: Seq<nat>,
) -> bool {
    forall|i: int|
        0 <= i < dv.gates.len() ==> eval_expr(#[trigger] dv.gates[i], dv.modulus as nat, iv, ev, cv)
            == 0
}

/// Every pair of a layout agrees on its evaluations.
pub open spec fn pairs_ok_vals(pairs: Seq<(usize, usize)>, ev: Seq<nat>) -> bool {
    forall|i: int|
        0 <= i < pairs.len() ==> ev[(#[trigger] pairs[i]).0 as int] == ev[pairs[i].1 as int]
}

/// All gate, permutation and lookup identities hold.
pub open spec fn identities_ok_vals(
    dv: DescriptorView,
    iv: Seq<Seq<nat>>,
    ev: Seq<nat>,
    cv: Seq<nat>,
) -> bool {
    &&& gates_ok_vals(dv, iv, ev, cv)
    &&& pairs_ok_vals(dv.permutations, ev)
    &&& pairs_ok_vals(dv.lookups, ev)
}

/// The opening claims the identities imply: for each query, the commitment
/// it opens, the shifted evaluation point, the claimed value and the opening
/// witness.
pub open spec fn claims_from(
    dv: DescriptorView,
    wv: Seq<nat>,
    x: nat,
    ev: Seq<nat>,
    ov: Seq<nat>,
) -> Seq<ClaimVals> {
    Seq::new(
        dv.queries.len(),
        |i: int|
            ClaimVals {
                cm: if (dv.queries[i].poly as int) < dv.fixed.len() {
                    dv.fixed[dv.queries[i].poly as int] as nat
                } else {
                    wv[dv.queries[i].poly as int - dv.fixed.len() as int]
                },
                z: f_mul(dv.modulus as nat, x, dv.queries[i].shift as nat),
                v: ev[i],
                w: ov[i],
            },
    )
}

/// The single batched pairing equality over the accumulated claims.
pub open spec fn batch_ok_vals(
    dv: DescriptorView,
    dk: KzgDecidingKey,
    wv: Seq<nat>,
    x: nat,
    ev: Seq<nat>,
    ov: Seq<nat>,
    u: nat,
) -> bool {
    pairing_holds(
        dv.modulus as nat,
        horner(dv.modulus as nat, lhs_terms(claims_from(dv, wv, x, ev, ov)), u),
        horner(
            dv.modulus as nat,
            rhs_terms(dv.modulus as nat, dv.g1 as nat, claims_from(dv, wv, x, ev, ov)),
            u,
        ),
        dk,
    )
}

/// The decision the verifier makes, in the order it makes it. The backends
/// differ only at the end: the native loader resolves the pairing equality
/// immediately, the symbolic loader emits it as a deferred check.
pub open spec fn outcome(
    kind: LoaderKind,
    dv: DescriptorView,
    dk: KzgDecidingKey,
    inst: Seq<Vec<u64>>,
    proof: Seq<u64>,
) -> Outcome {
    if !instances_ok(dv, inst) {
        Outcome::BadInstances
    } else if !proof_shape_ok(dv, proof) {
        Outcome::BadProof
    } else if !identities_ok_vals(
        dv,
        inst_vals(inst),
        eval_vals(dv, proof),
        challenge_vals(dv, inst, proof),
    ) {
        Outcome::BadIdentity
    } else if kind == LoaderKind::Native && !batch_ok_vals(
        dv,
        dk,
        witness_vals(dv, proof),
        x_val(dv, inst, proof),
        eval_vals(dv, proof),
        opening_vals(dv, proof),
        u_val(dv, inst, proof),
    ) {
        Outcome::BadPairing
    } else {
        Outcome::Accept
    }
}

/// Everything read or squeezed from the transcript for one proof, in the
/// protocol's fixed order.
pub struct PlonkProof {
    /// Witness commitments, read first.
    pub witness: Vec<LoadedEcPoint>,
    /// The protocol-mandated challenges, squeezed next.
    pub challenges: Vec<LoadedScalar>,
    /// The evaluation-point challenge.
    pub x: LoadedScalar,
    /// Claimed evaluations, one per query.
    pub evals: Vec<LoadedScalar>,
    /// The opening-batching challenge.
    pub u: LoadedScalar,
    /// Opening witnesses, one per query.
    pub openings: Vec<LoadedEcPoint>,
}

impl PlonkProof {
    /// Owned by the loader and sized by the protocol.
    pub open spec fn wf(self, l: Loader, dv: DescriptorView) -> bool {
        &&& self.witness@.len() == dv.num_witness as nat
        &&& self.challenges@.len() == dv.num_challenges as nat
        &&& self.evals@.len() == dv.queries.len()
        &&& self.openings@.len() == dv.queries.len()
        &&& points_wf(self.witness@, l)
        &&& scalars_wf(self.challenges@, l)
        &&& self.x.wf(l)
        &&& scalars_wf(self.evals@, l)
        &&& self.u.wf(l)
        &&& points_wf(self.openings@, l)
    }
}

/// The verifier for the PLONKish protocol over the batched KZG scheme.
pub struct PlonkVerifier {}

impl PlonkVerifier {
    /// Read every proof element the protocol describes, in fixed order,
    /// deriving all challenges along the way. Succeeds exactly on a stream
    /// of the declared length whose elements are all canonical; any other
    /// stream fails with a transcript error.
    #[verifier::loop_isolation(false)]
    pub fn read_proof(l: &mut Loader, d: &ProtocolDescriptor, t: &mut Transcript) -> (r: Result<
        PlonkProof,
        Error,
    >)
        requires
            old(l).wf(),
            d.wf(),
            d.modulus == old(l).modulus,
            old(t).wf(*old(l)),
            old(t).pos == 0,
        ensures
            step_ok(*old(l), *final(l)),
            final(t).wf(*final(l)),
            final(t).stream@ == old(t).stream@,
            r is Ok <==> proof_shape_ok(d.view(), old(t).stream@),
            r is Err ==> r matches Err(Error::Transcript(_, _)),
            r matches Ok(pf) ==> {
                &&& pf.wf(*final(l), d.view())
                &&& point_vals(pf.witness@) == witness_vals(d.view(), old(t).stream@)
                &&& loaded_vals(pf.challenges@) == ts_challenges(
                    old(l).modulus as nat,
                    ts_absorb_seq(
                        old(l).modulus as nat,
                        old(t).state.value(),
                        old(t).stream@.subrange(0, d.num_witness as int),
                    ),
                    d.num_challenges as nat,
                )
                &&& pf.x.value() == ts_squeeze_n(
                    old(l).modulus as nat,
                    ts_absorb_seq(
                        old(l).modulus as nat,
                        old(t).state.value(),
                        old(t).stream@.subrange(0, d.num_witness as int),
                    ),
                    d.num_challenges as nat + 1,
                )
                &&& loaded_vals(pf.evals@) == eval_vals(d.view(), old(t).stream@)
                &&& pf.u.value() == ts_squeeze(
                    old(l).modulus as nat,
                    ts_absorb_seq(
                        old(l).modulus as nat,
                        pf.x.value(),
                        old(t).stream@.subrange(
                            d.num_witness as int,
                            d.num_witness as int + d.queries@.len() as int,
                        ),
                    ),
                )
                &&& point_vals(pf.openings@) == opening_vals(d.view(), old(t).stream@)
            },
    {
        broadcast use crate::loader::lemma_scalar_wf_mono;
        broadcast use crate::loader::lemma_point_wf_mono;

        let ghost p = old(l).modulus as nat;
        let ghost st = old(t).stream@;
        let ghost s0 = old(t).state.value();
        let nw = d.num_witness;
        let nq = d.queries.len();
        let nc = d.num_challenges;

        let mut witness: Vec<LoadedEcPoint> = Vec::new();
        let mut j: usize = 0;
        while j < nw
            invariant
                l.wf(),
                t.wf(*l),
                l.kind == old(l).kind,
                l.modulus == old(l).modulus,
                trace_extends(l.trace@, old(l).trace@),
                p == old(l).modulus as nat,
                st == old(t).stream@,
                s0 == old(t).state.value(),
                t.stream@ == st,
                nw == d.num_witness,
                t.pos == j,
                j <= nw,
                j <= st.len(),
                witness@.len() == j,
                points_wf(witness@, *l),
                forall|k: int| 0 <= k < j ==> (#[trigger] witness@[k]).value() == st[k] as nat,
                t.state.value() == ts_absorb_seq(p, s0, st.subrange(0, j as int)),
                forall|k: int| 0 <= k < j ==> #[trigger] st[k] < l.modulus,
            decreases nw - j,
        {
            let v = match t.read_point(l) {
                Ok(v) => v,
                Err(e) => {
                    return Err(e);
                },
            };
            witness.push(v);
            proof {
                assert(st.subrange(0, j + 1).drop_last() =~= st.subrange(0, j as int));
                assert(st.subrange(0, j + 1).last() == st[j as int]);
            }
            j = j + 1;
        }

        let ghost sw = t.state.value();
        let mut challenges: Vec<LoadedScalar> = Vec::new();
        let mut j: usize = 0;
        while j < nc
            invariant
                l.wf(),
                t.wf(*l),
                l.kind == old(l).kind,
                l.modulus == old(l).modulus,
                trace_extends(l.trace@, old(l).trace@),
                p == old(l).modulus as nat,
                st == old(t).stream@,
                t.stream@ == st,
                t.pos == nw,
                nw == d.num_witness,
                j <= nc,
                challenges@.len() == j,
                points_wf(witness@, *l),
                scalars_wf(challenges@, *l),
                t.state.value() == ts_squeeze_n(p, sw, j as nat),
                forall|k: int|
                    0 <= k < j ==> (#[trigger] challenges@[k]).value() == ts_squeeze_n(
                        p,
                        sw,
                        (k + 1) as nat,
                    ),
            decreases nc - j,
        {
            let c = t.squeeze_challenge(l);
            challenges.push(c);
            j = j + 1;
        }
        proof {
            assert(loaded_vals(challenges@) =~= ts_challenges(p, sw, nc as nat));
        }

        let x = t.squeeze_challenge(l);

        let mut evals: Vec<LoadedScalar> = Vec::new();
        let mut j: usize = 0;
        while j < nq
            invariant
                l.wf(),
                t.wf(*l),
                l.kind == old(l).kind,
                l.modulus == old(l).modulus,
                trace_extends(l.trace@, old(l).trace@),
                p == old(l).modulus as nat,
                st == old(t).stream@,
                t.stream@ == st,
                t.pos == nw + j,
                nw == d.num_witness,
                nq == d.queries@.len(),
                j <= nq,
                nw + j <= st.len(),
                evals@.len() == j,
                points_wf(witness@, *l),
                scalars_wf(challenges@, *l),
                scalars_wf(evals@, *l),
                x.wf(*l),
                forall|k: int|
                    0 <= k < j ==> (#[trigger] evals@[k]).value() == st[nw + k] as nat,
                t.state.value() == ts_absorb_seq(p, x.value(), st.subrange(nw as int, nw + j)),
                forall|k: int| 0 <= k < nw + j ==> #[trigger] st[k] < l.modulus,
            decreases nq - j,
        {
            let v = match t.read_scalar(l) {
                Ok(v) => v,
                Err(e) => {
                    return Err(e);
                },
            };
            evals.push(v);
            proof {
                assert(st.subrange(nw as int, nw + j + 1).drop_last() =~= st.subrange(
                    nw as int,
                    nw + j,
                ));
                assert(st.subrange(nw as int, nw + j + 1).last() == st[nw + j]);
            }
            j = j + 1;
        }

        let u = t.squeeze_challenge(l);

        let mut openings: Vec<LoadedEcPoint> = Vec::new();
        let mut j: usize = 0;
        while j < nq
            invariant
                l.wf(),
                t.wf(*l),
                l.kind == old(l).kind,
                l.modulus == old(l).modulus,
                trace_extends(l.trace@, old(l).trace@),
                p == old(l).modulus as nat,
                st == old(t).stream@,
                t.stream@ == st,
                t.pos == nw + nq + j,
                nw == d.num_witness,
                nq == d.queries@.len(),
                nw + nq + nq <= usize::MAX,
                j <= nq,
                nw + nq + j <= st.len(),
                openings@.len() == j,
                points_wf(openings@, *l),
                x.wf(*l),
                u.wf(*l),
                scalars_wf(evals@, *l),
                scalars_wf(challenges@, *l),
                points_wf(witness@, *l),
                forall|k: int|
                    0 <= k < j ==> (#[trigger] openings@[k]).value() == st[nw + nq + k] as nat,
                forall|k: int| 0 <= k < nw + nq + j ==> #[trigger] st[k] < l.modulus,
            decreases nq - j,
        {
            let v = match t.read_point(l) {
                Ok(v) => v,
                Err(e) => {
                    return Err(e);
                },
            };
            openings.push(v);
            j = j + 1;
        }

        if t.pos != t.stream.len() {
            return Err(
                Error::Transcript(
                    TranscriptErrorKind::InvalidData,
                    String::from_str("the proof stream holds data past the declared proof"),
                ),
            );
        }

        proof {
            assert(point_vals(witness@) =~= nat_seq(st.subrange(0, nw as int)));
            assert(loaded_vals(evals@) =~= nat_seq(st.subrange(nw as int, nw + nq)));
            assert(point_vals(openings@) =~= nat_seq(st.subrange(nw + nq, nw + nq + nq)));
            assert(loaded_vals(challenges@) =~= ts_challenges(p, sw, nc as nat));
        }
        Ok(PlonkProof { witness, challenges, x, evals, u, openings })
    }

    /// Check every identity and resolve all opening claims into one batched
    /// pairing check. Succeeds exactly when every identity residual is zero
    /// and — natively — the pairing equality holds; a symbolic run instead
    /// leaves the emitted deferred check as its artifact.
    #[verifier::loop_isolation(false)]
    pub fn verify(
        l: &mut Loader,
        dk: &KzgDecidingKey,
        d: &ProtocolDescriptor,
        instances: &Vec<Vec<LoadedScalar>>,
        proof: &PlonkProof,
    ) -> (r: Result<Accumulator, Error>)
        requires
            old(l).wf(),
            d.wf(),
            d.modulus == old(l).modulus,
            dk.wf(old(l).modulus as nat),
            columns_wf(instances@, *old(l)),
            shape_of(instances@) == counts_of(d.num_instance@),
            proof.wf(*old(l), d.view()),
        ensures
            step_ok(*old(l), *final(l)),
            r is Ok <==> identities_ok_vals(
                d.view(),
                loaded_vals2(instances@),
                loaded_vals(proof.evals@),
                loaded_vals(proof.challenges@),
            ) && (old(l).kind == LoaderKind::Native ==> batch_ok_vals(
                d.view(),
                *dk,
                point_vals(proof.witness@),
                proof.x.value(),
                loaded_vals(proof.evals@),
                point_vals(proof.openings@),
                proof.u.value(),
            )),
            r is Err ==> r matches Err(Error::AssertionFailure(_)),
            r matches Ok(acc) ==> {
                &&& acc.wf(*final(l))
                &&& acc.lhs.value() == horner(
                    old(l).modulus as nat,
                    lhs_terms(
                        claims_from(
                            d.view(),
                            point_vals(proof.witness@),
                            proof.x.value(),
                            loaded_vals(proof.evals@),
                            point_vals(proof.openings@),
                        ),
                    ),
                    proof.u.value(),
                )
                &&& acc.rhs.value() == horner(
                    old(l).modulus as nat,
                    rhs_terms(
                        old(l).modulus as nat,
                        d.g1 as nat,
                        claims_from(
                            d.view(),
                            point_vals(proof.witness@),
                            proof.x.value(),
                            loaded_vals(proof.evals@),
                            point_vals(proof.openings@),
                        ),
                    ),
                    proof.u.value(),
                )
            },
            (old(l).kind == LoaderKind::Symbolic && r is Ok) ==> final(l).trace@.len() > 0 && (
            final(l).trace@.last() matches Instr::PairingCheck { .. }),
    {
        broadcast use crate::loader::lemma_scalar_wf_mono;
        broadcast use crate::loader::lemma_point_wf_mono;

        let ghost p = old(l).modulus as nat;
        let ghost dv = d.view();
        let ghost iv = loaded_vals2(instances@);
        let ghost ev = loaded_vals(proof.evals@);
        let ghost cv = loaded_vals(proof.challenges@);

        let mut i: usize = 0;
        while i < d.gates.len()
            invariant
                l.wf(),
                l.kind == old(l).kind,
                l.modulus == old(l).modulus,
                trace_extends(l.trace@, old(l).trace@),
                p == old(l).modulus as nat,
                dv == d.view(),
                iv == loaded_vals2(instances@),
                ev == loaded_vals(proof.evals@),
                cv == loaded_vals(proof.challenges@),
                d.wf(),
                d.modulus == l.modulus,
                columns_wf(instances@, *l),
                shape_of(instances@) == counts_of(d.num_instance@),
                proof.wf(*l, d.view()),
                i <= d.gates@.len(),
                forall|j: int|
                    0 <= j < i ==> eval_expr(#[trigger] dv.gates[j], p, iv, ev, cv) == 0,
            decreases d.gates@.len() - i,
        {
            let res = evaluate(l, &d.gates[i], instances, &proof.evals, &proof.challenges);
            if res.val() != 0 {
                proof {
                    assert(eval_expr(dv.gates[i as int], dv.modulus as nat, iv, ev, cv) != 0);
                    assert(!gates_ok_vals(dv, iv, ev, cv));
                }
                let mut msg = String::from_str("gate identity ");
                msg.append(decimal_string(i as u64).as_str());
                msg.append(" has a non-zero residual");
                return Err(Error::AssertionFailure(msg));
            }
            i = i + 1;
        }

        let mut i: usize = 0;
        while i < d.permutations.len()
            invariant
                l.wf(),
                l.kind == old(l).kind,
                l.modulus == old(l).modulus,
                trace_extends(l.trace@, old(l).trace@),
                p == old(l).modulus as nat,
                dv == d.view(),
                iv == loaded_vals2(instances@),
                ev == loaded_vals(proof.evals@),
                cv == loaded_vals(proof.challenges@),
                d.wf(),
                d.modulus == l.modulus,
                proof.wf(*l, d.view()),
                columns_wf(instances@, *l),
                gates_ok_vals(dv, iv, ev, cv),
                i <= d.permutations@.len(),
                forall|j: int|
                    0 <= j < i ==> ev[(#[trigger] dv.permutations[j]).0 as int] == ev[
                        dv.permutations[j].1 as int
                    ],
            decreases d.permutations@.len() - i,
        {
            let (a, b) = d.permutations[i];
            let diff = l.sub(&proof.evals[a], &proof.evals[b]);
            proof {
                lemma_f_sub_zero(p, ev[a as int], ev[b as int]);
            }
            if diff.val() != 0 {
                let mut msg = String::from_str("permutation identity ");
                msg.append(decimal_string(i as u64).as_str());
                msg.append(" has a non-zero residual");
                return Err(Error::AssertionFailure(msg));
            }
            i = i + 1;
        }

        let mut i: usize = 0;
        while i < d.lookups.len()
            invariant
                l.wf(),
                l.kind == old(l).kind,
                l.modulus == old(l).modulus,
                trace_extends(l.trace@, old(l).trace@),
                p == old(l).modulus as nat,
                dv == d.view(),
                iv == loaded_vals2(instances@),
                ev == loaded_vals(proof.evals@),
                cv == loaded_vals(proof.challenges@),
                d.wf(),
                d.modulus == l.modulus,
                proof.wf(*l, d.view()),
                columns_wf(instances@, *l),
                gates_ok_vals(dv, iv, ev, cv),
                pairs_ok_vals(dv.permutations, ev),
                i <= d.lookups@.len(),
                forall|j: int|
                    0 <= j < i ==> ev[(#[trigger] dv.lookups[j]).0 as int] == ev[
                        dv.lookups[j].1 as int
                    ],
            decreases d.lookups@.len() - i,
        {
            let (a, b) = d.lookups[i];
            let diff = l.sub(&proof.evals[a], &proof.evals[b]);
            proof {
                lemma_f_sub_zero(p, ev[a as int], ev[b as int]);
            }
            if diff.val() != 0 {
                let mut msg = String::from_str("lookup identity ");
                msg.append(decimal_string(i as u64).as_str());
                msg.append(" has a non-zero residual");
                return Err(Error::AssertionFailure(msg));
            }
            i = i + 1;
        }

        let ghost wv = point_vals(proof.witness@);
        let ghost ov = point_vals(proof.openings@);
        let nf = d.fixed.len();
        let mut claims: Vec<OpeningClaim> = Vec::new();
        let mut i: usize = 0;
        while i < d.queries.len()
            invariant
                l.wf(),
                l.kind == old(l).kind,
                l.modulus == old(l).modulus,
                trace_extends(l.trace@, old(l).trace@),
                p == old(l).modulus as nat,
                dv == d.view(),
                iv == loaded_vals2(instances@),
                wv == point_vals(proof.witness@),
                ev == loaded_vals(proof.evals@),
                cv == loaded_vals(proof.challenges@),
                ov == point_vals(proof.openings@),
                gates_ok_vals(dv, iv, ev, cv),
                pairs_ok_vals(dv.permutations, ev),
                pairs_ok_vals(dv.lookups, ev),
                d.wf(),
                d.modulus == l.modulus,
                nf == d.fixed@.len(),
                proof.wf(*l, d.view()),
                i <= d.queries@.len(),
                claims@.len() == i,
                claims_wf(claims@, *l),
                forall|j: int|
                    0 <= j < i ==> (#[trigger] claims@[j]).vals() == claims_from(
                        dv,
                        wv,
                        proof.x.value(),
                        ev,
                        ov,
                    )[j],
            decreases d.queries@.len() - i,
        {
            let q = d.queries[i];
            let commitment = if q.poly < nf {
                l.load_const_point(d.fixed[q.poly])
            } else {
                proof.witness[q.poly - nf]
            };
            let sh = l.load_const(q.shift);
            let z = l.mul(&proof.x, &sh);
            claims.push(
                OpeningClaim { commitment, point: z, value: proof.evals[i], witness: proof.openings[i] },
            );
            i = i + 1;
        }

        proof {
            assert(identities_ok_vals(dv, iv, ev, cv));
        }
        let acc = accumulate(l, d.g1, &claims, &proof.u);
        proof {
            assert(claim_vals(claims@) =~= claims_from(dv, wv, proof.x.value(), ev, ov));
        }
        let ok = finalize(l, &acc, dk);
        if ok {
            Ok(acc)
        } else {
            Err(Error::AssertionFailure(String::from_str("the batched pairing check failed")))
        }
    }

    /// Run one whole verification: validate the instance shape, load the
    /// instances, read the proof, check every identity, fold and resolve the
    /// accumulator. Returns the terminal state, the loader (whose trace is
    /// the artifact of a symbolic run) and the decision, which is exactly
    /// [`outcome`] on the inputs.
    #[verifier::loop_isolation(false)]
    pub fn run(
        kind: LoaderKind,
        d: &ProtocolDescriptor,
        dk: &KzgDecidingKey,
        instances: &Vec<Vec<u64>>,
        proof_stream: Vec<u64>,
    ) -> (r: (VerifierState, Loader, Result<Accumulator, Error>))
        requires
            d.wf(),
            dk.wf(d.modulus as nat),
        ensures
            r.1.wf(),
            r.1.kind == kind,
            r.1.modulus == d.modulus,
            r.2 is Ok <==> outcome(kind, d.view(), *dk, instances@, proof_stream@)
                == Outcome::Accept,
            r.0 == VerifierState::Accepted <==> r.2 is Ok,
            r.2 is Err ==> r.0 == VerifierState::Rejected,
            outcome(kind, d.view(), *dk, instances@, proof_stream@) == Outcome::BadInstances <==> r.2
                matches Err(Error::InvalidInstances),
            outcome(kind, d.view(), *dk, instances@, proof_stream@) == Outcome::BadProof <==> r.2
                matches Err(Error::Transcript(_, _)),
            (outcome(kind, d.view(), *dk, instances@, proof_stream@) == Outcome::BadIdentity
                || outcome(kind, d.view(), *dk, instances@, proof_stream@) == Outcome::BadPairing)
                <==> r.2 matches Err(Error::AssertionFailure(_)),
            outcome(kind, d.view(), *dk, instances@, proof_stream@) == Outcome::BadInstances
                ==> r.1.trace@.len() == 0,
            kind == LoaderKind::Native ==> r.1.trace@.len() == 0,
            (kind == LoaderKind::Symbolic && r.2 is Ok) ==> r.1.trace@.len() > 0 && (
            r.1.trace@.last() matches Instr::PairingCheck { .. }),
            r.2 matches Ok(acc) ==> {
                &&& acc.lhs.value() == horner(
                    d.modulus as nat,
                    lhs_terms(
                        claims_from(
                            d.view(),
                            witness_vals(d.view(), proof_stream@),
                            x_val(d.view(), instances@, proof_stream@),
                            eval_vals(d.view(), proof_stream@),
                            opening_vals(d.view(), proof_stream@),
                        ),
                    ),
                    u_val(d.view(), instances@, proof_stream@),
                )
                &&& acc.rhs.value() == horner(
                    d.modulus as nat,
                    rhs_terms(
                        d.modulus as nat,
                        d.g1 as nat,
                        claims_from(
                            d.view(),
                            witness_vals(d.view(), proof_stream@),
                            x_val(d.view(), instances@, proof_stream@),
                            eval_vals(d.view(), proof_stream@),
                            opening_vals(d.view(), proof_stream@),
                        ),
                    ),
                    u_val(d.view(), instances@, proof_stream@),
                )
            },
    {
        broadcast use crate::loader::lemma_scalar_wf_mono;
        broadcast use crate::loader::lemma_point_wf_mono;

        let ghost p = d.modulus as nat;
        let ghost dv = d.view();
        let mut l = Loader::new(kind, d.modulus);
        if !check_instances(d, instances) {
            return (VerifierState::Rejected, l, Err(Error::InvalidInstances));
        }
        let mut t = Transcript::new(&mut l, proof_stream);
        let mut loaded: Vec<Vec<LoadedScalar>> = Vec::new();
        let mut c: usize = 0;
        while c < instances.len()
            invariant
                l.wf(),
                l.kind == kind,
                l.modulus == d.modulus,
                t.wf(l),
                t.stream@ == proof_stream@,
                t.pos == 0,
                c <= instances@.len(),
                loaded@.len() == c,
                columns_wf(loaded@, l),
                forall|j: int|
                    0 <= j < c ==> loaded_vals((#[trigger] loaded@[j])@) == nat_seq(
                        instances@[j]@,
                    ) && loaded@[j]@.len() == instances@[j]@.len(),
                t.state.value() == absorb_columns(p, ts_init(p), instances@.take(c as int)),
            decreases instances@.len() - c,
        {
            let col = t.load_instances(&mut l, &instances[c]);
            proof {
                assert(loaded_vals(col@) =~= nat_seq(instances@[c as int]@));
                assert(instances@.take(c + 1).drop_last() =~= instances@.take(c as int));
                assert(instances@.take(c + 1).last() == instances@[c as int]);
            }
            loaded.push(col);
            c = c + 1;
        }
        proof {
            assert(instances@.take(instances@.len() as int) =~= instances@);
            assert(t.state.value() == state_after_instances(dv, instances@));
            assert(loaded_vals2(loaded@) =~= inst_vals(instances@));
            assert(shape_of(loaded@) =~= counts_of(d.num_instance@));
        }
        let pf = match Self::read_proof(&mut l, d, &mut t) {
            Ok(pf) => pf,
            Err(e) => {
                return (VerifierState::Rejected, l, Err(e));
            },
        };
        match Self::verify(&mut l, dk, d, &loaded, &pf) {
            Ok(acc) => (VerifierState::Accepted, l, Ok(acc)),
            Err(e) => (VerifierState::Rejected, l, Err(e)),
        }
    }
}

/// Validate the supplied instances against the protocol's declared shape.
#[verifier::loop_isolation(false)]
pub fn check_instances(d: &ProtocolDescriptor, instances: &Vec<Vec<u64>>) -> (b: bool)
    requires
        d.wf(),
    ensures
        b == instances_ok(d.view(), instances@),
{
    if instances.len() != d.num_instance.len() {
        return false;
    }
    let mut c: usize = 0;
    while c < instances.len()
        invariant
            c <= instances@.len(),
            instances@.len() == d.num_instance@.len(),
            forall|j: int|
                0 <= j < c ==> (#[trigger] instances@[j])@.len() == d.num_instance@[j] as nat,
            forall|j: int, r: int|
                0 <= j < c && 0 <= r < instances@[j]@.len() ==> (#[trigger] instances@[j]@[r])
                    < d.modulus,
        decreases instances@.len() - c,
    {
        let column = &instances[c];
        if column.len() != d.num_instance[c] {
            return false;
        }
        let mut r: usize = 0;
        while r < column.len()
            invariant
                c < instances@.len(),
                column@ == instances@[c as int]@,
                r <= column@.len(),
                forall|k: int| 0 <= k < r ==> #[trigger] column@[k] < d.modulus,
            decreases column@.len() - r,
        {
            if column[r] >= d.modulus {
                return false;
            }
            r = r + 1;
        }
        c = c + 1;
    }
    true
}

/// The transitions the single-pass machine allows: each phase hands over to
/// the next, and any phase before a terminal one may fail into `Rejected`.
pub open spec fn step_allowed(pre: VerifierState, post: VerifierState) -> bool {
    ||| (pre == VerifierState::Uninitialized && post == VerifierState::InstancesLoaded)
    ||| (pre == VerifierState::InstancesLoaded && post == VerifierState::ProofRead)
    ||| (pre == VerifierState::ProofRead && post == VerifierState::ChallengesDerived)
    ||| (pre == VerifierState::ChallengesDerived && post == VerifierState::ConstraintsChecked)
    ||| (pre == VerifierState::ConstraintsChecked && post == VerifierState::AccumulatorFinalized)
    ||| (pre == VerifierState::AccumulatorFinalized && post == VerifierState::Accepted)
    ||| (pre != VerifierState::Accepted && pre != VerifierState::Rejected && post
        == VerifierState::Rejected)
}

/// Where each state stands in the single pass.
pub open spec fn state_order(s: VerifierState) -> nat {
    match s {
        VerifierState::Uninitialized => 0,
        VerifierState::InstancesLoaded => 1,
        VerifierState::ProofRead => 2,
        VerifierState::ChallengesDerived => 3,
        VerifierState::ConstraintsChecked => 4,
        VerifierState::AccumulatorFinalized => 5,
        VerifierState::Accepted => 6,
        VerifierState::Rejected => 6,
    }
}

/// The machine never moves backwards: every allowed transition strictly
/// advances the pass, so a failed run cannot be resumed — it must restart
/// from `Uninitialized`.
pub proof fn lemma_single_pass(pre: VerifierState, post: VerifierState)
    requires
        step_allowed(pre, post),
    ensures
        state_order(pre) < state_order(post),
{
}

/// Verification is deterministic: on equal inputs, the decision and the
/// derived challenge sequence are equal — both are pure functions of the
/// protocol, the deciding key, the instances and the proof alone.
pub proof fn lemma_verification_deterministic(
    kind: LoaderKind,
    dv: DescriptorView,
    dk: KzgDecidingKey,
    inst1: Seq<Vec<u64>>,
    proof1: Seq<u64>,
    inst2: Seq<Vec<u64>>,
    proof2: Seq<u64>,
)
    requires
        inst1 == inst2,
        proof1 == proof2,
    ensures
        outcome(kind, dv, dk, inst1, proof1) == outcome(kind, dv, dk, inst2, proof2),
        challenge_vals(dv, inst1, proof1) == challenge_vals(dv, inst2, proof2),
{
}

/// The two backends are equivalent: the challenge sequence ([`challenge_vals`],
/// which both backends are proved to derive) does not depend on the backend
/// at all, and the decisions agree everywhere except that only the native
/// backend resolves the final pairing — a symbolic run defers it into its
/// emitted trace.
pub proof fn lemma_cross_backend_equivalence(
    dv: DescriptorView,
    dk: KzgDecidingKey,
    inst: Seq<Vec<u64>>,
    proof: Seq<u64>,
)
    ensures
        outcome(LoaderKind::Native, dv, dk, inst, proof) == Outcome::Accept ==> outcome(
            LoaderKind::Symbolic,
            dv,
            dk,
            inst,
            proof,
        ) == Outcome::Accept,
        outcome(LoaderKind::Symbolic, dv, dk, inst, proof) == Outcome::Accept <==> (outcome(
            LoaderKind::Native,
            dv,
            dk,
            inst,
            proof,
        ) == Outcome::Accept || outcome(LoaderKind::Native, dv, dk, inst, proof)
            == Outcome::BadPairing),
        outcome(LoaderKind::Native, dv, dk, inst, proof) == Outcome::BadInstances <==> outcome(
            LoaderKind::Symbolic,
            dv,
            dk,
            inst,
            proof,
        ) == Outcome::BadInstances,
        outcome(LoaderKind::Native, dv, dk, inst, proof) == Outcome::BadProof <==> outcome(
            LoaderKind::Symbolic,
            dv,
            dk,
            inst,
            proof,
        ) == Outcome::BadProof,
        outcome(LoaderKind::Native, dv, dk, inst, proof) == Outcome::BadIdentity <==> outcome(
            LoaderKind::Symbolic,
            dv,
            dk,
            inst,
            proof,
        ) == Outcome::BadIdentity,
{
}

/// An instance vector of the wrong shape is always rejected as such, on
/// either backend, before any proof byte is read or challenge derived.
pub proof fn lemma_instance_shape_rejected(
    kind: LoaderKind,
    dv: DescriptorView,
    dk: KzgDecidingKey,
    inst: Seq<Vec<u64>>,
    proof: Seq<u64>,
)
    requires
        inst.len() != dv.num_instance.len(),
    ensures
        outcome(kind, dv, dk, inst, proof) == Outcome::BadInstances,
{
}

} // verus!
