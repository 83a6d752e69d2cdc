//! The commitment-accumulation engine for the batched KZG opening scheme.
//!
//! Instead of one pairing check per opening, every claim (commitment,
//! evaluation point, claimed value, opening witness) is folded into a single
//! [`Accumulator`] pair by a random-linear-combination challenge `u` drawn
//! from the transcript: the fold is a Horner evaluation in `u` over the
//! claims, computed through the loader's scalar-multiplication and
//! point-addition operations. Finalization resolves the accumulator through
//! the loader's one pairing equality — an immediate boolean natively, a
//! deferred emitted check symbolically.

use vstd::prelude::*;
use crate::arith::{f_add, f_mul, f_neg, lemma_f_mul_assoc, lemma_f_mul_distrib};
use crate::loader::{emits, step_ok, Instr, LoadedEcPoint, LoadedScalar, Loader, LoaderKind};

verus! {

/// The mathematical content of one opening claim: commitment, point, claimed
/// value and opening witness, as exponents and residues.
pub struct ClaimVals {
    /// The commitment's exponent.
    pub cm: nat,
    /// The evaluation point.
    pub z: nat,
    /// The claimed evaluation value.
    pub v: nat,
    /// The opening witness's exponent.
    pub w: nat,
}

/// One polynomial-opening claim handed to the accumulation engine.
#[derive(Clone, Copy, Debug)]
pub struct OpeningClaim {
    /// Commitment to the opened polynomial.
    pub commitment: LoadedEcPoint,
    /// The point the polynomial is opened at.
    pub point: LoadedScalar,
    /// The claimed value at that point.
    pub value: LoadedScalar,
    /// The opening witness (quotient commitment).
    pub witness: LoadedEcPoint,
}

impl OpeningClaim {
    /// All four parts owned by the given loader.
    pub open spec fn wf(self, l: Loader) -> bool {
        &&& self.commitment.wf(l)
        &&& self.point.wf(l)
        &&& self.value.wf(l)
        &&& self.witness.wf(l)
    }

    /// The claim's mathematical content.
    pub open spec fn vals(self) -> ClaimVals {
        ClaimVals {
            cm: self.commitment.value(),
            z: self.point.value(),
            v: self.value.value(),
            w: self.witness.value(),
        }
    }
}

/// All claims owned by the given loader.
pub open spec fn claims_wf(s: Seq<OpeningClaim>, l: Loader) -> bool {
    forall|i: int| 0 <= i < s.len() ==> (#[trigger] s[i]).wf(l)
}

/// The mathematical content of a claim sequence.
pub open spec fn claim_vals(s: Seq<OpeningClaim>) -> Seq<ClaimVals> {
    s.map(|i: int, c: OpeningClaim| c.vals())
}

/// The left accumulation term of one claim: its opening witness.
pub open spec fn lhs_terms(s: Seq<ClaimVals>) -> Seq<nat> {
    s.map(|i: int, c: ClaimVals| c.w)
}

/// The right accumulation term of one claim: `z*w + cm - v*g1`, the point
/// whose pairing against the plain second-group generator must match the
/// witness paired against the shifted one.
pub open spec fn rhs_term(p: nat, g1: nat, c: ClaimVals) -> nat {
    f_add(p, f_add(p, f_mul(p, c.z, c.w), c.cm), f_mul(p, f_neg(p, c.v), g1))
}

/// The right accumulation terms of a claim sequence.
pub open spec fn rhs_terms(p: nat, g1: nat, s: Seq<ClaimVals>) -> Seq<nat> {
    s.map(|i: int, c: ClaimVals| rhs_term(p, g1, c))
}

/// Horner evaluation of the random linear combination
/// `a_0 + u*(a_1 + u*(... ))` over the field of modulus `p`.
pub open spec fn horner(p: nat, a: Seq<nat>, u: nat) -> nat
    decreases a.len(),
{
    if a.len() == 0 {
        0
    } else {
        f_add(p, a.first(), f_mul(p, u, horner(p, a.drop_first(), u)))
    }
}

/// The deciding key for the batched KZG scheme: the two second-group
/// elements the final pairing equality is taken against.
#[derive(Clone, Copy, Debug)]
pub struct KzgDecidingKey {
    /// The plain second-group generator.
    pub g2: u64,
    /// The generator shifted by the scheme's trapdoor.
    pub s_g2: u64,
}

impl KzgDecidingKey {
    /// Canonical under the given modulus.
    pub open spec fn wf(self, p: nat) -> bool {
        &&& (self.g2 as nat) < p
        &&& (self.s_g2 as nat) < p
    }
}

/// The deferred batched pairing check: a pair of accumulated points.
#[derive(Clone, Copy, Debug)]
pub struct Accumulator {
    /// Accumulated opening witnesses, paired against the shifted generator.
    pub lhs: LoadedEcPoint,
    /// Accumulated right terms, paired against the plain generator.
    pub rhs: LoadedEcPoint,
}

impl Accumulator {
    /// Both points owned by the given loader.
    pub open spec fn wf(self, l: Loader) -> bool {
        &&& self.lhs.wf(l)
        &&& self.rhs.wf(l)
    }
}

/// The pairing equality a finalized accumulator asserts, in exponent form:
/// `e(lhs, s_g2) == e(rhs, g2)`.
pub open spec fn pairing_holds(p: nat, lhs: nat, rhs: nat, dk: KzgDecidingKey) -> bool {
    f_mul(p, lhs, dk.s_g2 as nat) == f_mul(p, rhs, dk.g2 as nat)
}

/// Fold all opening claims into one accumulator with the batching challenge
/// `u`, via the loader. The accumulated pair is exactly the Horner fold of
/// the per-claim terms.
pub fn accumulate(l: &mut Loader, g1: u64, claims: &Vec<OpeningClaim>, u: &LoadedScalar) -> (acc:
    Accumulator)
    requires
        old(l).wf(),
        g1 < old(l).modulus,
        u.wf(*old(l)),
        claims_wf(claims@, *old(l)),
    ensures
        step_ok(*old(l), *final(l)),
        acc.wf(*final(l)),
        acc.lhs.value() == horner(
            old(l).modulus as nat,
            lhs_terms(claim_vals(claims@)),
            u.value(),
        ),
        acc.rhs.value() == horner(
            old(l).modulus as nat,
            rhs_terms(old(l).modulus as nat, g1 as nat, claim_vals(claims@)),
            u.value(),
        ),
{
    broadcast use crate::loader::lemma_scalar_wf_mono;
    broadcast use crate::loader::lemma_point_wf_mono;

    let ghost p = old(l).modulus as nat;
    let ghost lt = lhs_terms(claim_vals(claims@));
    let ghost rt = rhs_terms(p, g1 as nat, claim_vals(claims@));
    let g1p = l.load_const_point(g1);
    let mut lhs = l.load_const_point(0);
    let mut rhs = l.load_const_point(0);
    let mut i: usize = claims.len();
    proof {
        assert(lt.skip(i as int) =~= Seq::<nat>::empty());
        assert(rt.skip(i as int) =~= Seq::<nat>::empty());
    }
    while i > 0
        invariant
            l.wf(),
            l.kind == old(l).kind,
            l.modulus == old(l).modulus,
            crate::loader::trace_extends(l.trace@, old(l).trace@),
            p == old(l).modulus as nat,
            lt == lhs_terms(claim_vals(claims@)),
            rt == rhs_terms(p, g1 as nat, claim_vals(claims@)),
            i <= claims@.len(),
            u.wf(*l),
            g1p.wf(*l),
            g1p.value() == g1 as nat,
            g1 < l.modulus,
            claims_wf(claims@, *l),
            lhs.wf(*l),
            rhs.wf(*l),
            lhs.value() == horner(p, lt.skip(i as int), u.value()),
            rhs.value() == horner(p, rt.skip(i as int), u.value()),
        decreases i,
    {
        i = i - 1;
        let c = &claims[i];
        let ul = l.scalar_mul(u, &lhs);
        lhs = l.ec_add(&c.witness, &ul);
        let zw = l.scalar_mul(&c.point, &c.witness);
        let t2 = l.ec_add(&zw, &c.commitment);
        let nv = l.neg(&c.value);
        let t3 = l.scalar_mul(&nv, &g1p);
        let ri = l.ec_add(&t2, &t3);
        let ur = l.scalar_mul(u, &rhs);
        rhs = l.ec_add(&ri, &ur);
        proof {
            assert(lt.skip(i as int).first() == lt[i as int]);
            assert(lt.skip(i as int).drop_first() =~= lt.skip(i + 1));
            assert(rt.skip(i as int).first() == rt[i as int]);
            assert(rt.skip(i as int).drop_first() =~= rt.skip(i + 1));
            assert(lt[i as int] == claim_vals(claims@)[i as int].w);
            assert(rt[i as int] == rhs_term(p, g1 as nat, claim_vals(claims@)[i as int]));
        }
    }
    proof {
        assert(lt.skip(0) =~= lt);
        assert(rt.skip(0) =~= rt);
    }
    Accumulator { lhs, rhs }
}

/// Resolve the accumulator through the one pairing equality: an immediate
/// boolean natively; symbolically the deferred check is emitted and the run
/// is complete.
pub fn finalize(l: &mut Loader, acc: &Accumulator, dk: &KzgDecidingKey) -> (r: bool)
    requires
        old(l).wf(),
        acc.wf(*old(l)),
        dk.wf(old(l).modulus as nat),
    ensures
        step_ok(*old(l), *final(l)),
        emits(
            *old(l),
            *final(l),
            Instr::PairingCheck {
                lhs: acc.lhs.sym_id(),
                rhs: acc.rhs.sym_id(),
                g2: dk.g2,
                s_g2: dk.s_g2,
            },
        ),
        old(l).kind == LoaderKind::Native ==> r == pairing_holds(
            old(l).modulus as nat,
            acc.lhs.value(),
            acc.rhs.value(),
            *dk,
        ),
        old(l).kind == LoaderKind::Symbolic ==> r,
    {
    l.pairing_check(&acc.lhs, &acc.rhs, dk.g2, dk.s_g2)
}

/// Accumulation is linear: if two opening claims each pass their own pairing
/// check, then accumulating both under any batching coefficient `u` and
/// finalizing passes the single batched pairing check.
pub proof fn lemma_accumulator_linearity(
    p: nat,
    g1: nat,
    dk: KzgDecidingKey,
    c1: ClaimVals,
    c2: ClaimVals,
    u: nat,
)
    requires
        2 <= p,
        c1.w < p,
        c2.w < p,
        dk.wf(p),
        pairing_holds(p, c1.w, rhs_term(p, g1, c1), dk),
        pairing_holds(p, c2.w, rhs_term(p, g1, c2), dk),
    ensures
        pairing_holds(
            p,
            horner(p, lhs_terms(seq![c1, c2]), u),
            horner(p, rhs_terms(p, g1, seq![c1, c2]), u),
            dk,
        ),
{
    let s2 = dk.s_g2 as nat;
    let g2 = dk.g2 as nat;
    let t1 = rhs_term(p, g1, c1);
    let t2 = rhs_term(p, g1, c2);
    let cl = seq![c1, c2];

    vstd::arithmetic::div_mod::lemma_mod_bound((f_mul(p, c2.z, c2.w) + c2.cm) as int, p as int);
    vstd::arithmetic::div_mod::lemma_mod_bound(
        (f_add(p, f_mul(p, c2.z, c2.w), c2.cm) + f_mul(p, f_neg(p, c2.v), g1)) as int,
        p as int,
    );
    vstd::arithmetic::div_mod::lemma_small_mod(c2.w, p);
    vstd::arithmetic::div_mod::lemma_small_mod(t2, p);

    // Unfold both two-element Horner folds to `first + u * second`.
    assert(lhs_terms(cl).len() == 2 && lhs_terms(cl)[0] == c1.w && lhs_terms(cl)[1] == c2.w);
    assert(rhs_terms(p, g1, cl).len() == 2 && rhs_terms(p, g1, cl)[0] == t1 && rhs_terms(
        p,
        g1,
        cl,
    )[1] == t2);
    assert(lhs_terms(cl).drop_first() =~= seq![c2.w]);
    assert(rhs_terms(p, g1, cl).drop_first() =~= seq![t2]);
    assert(seq![c2.w].drop_first() =~= Seq::<nat>::empty());
    assert(seq![t2].drop_first() =~= Seq::<nat>::empty());
    assert(f_mul(p, u, 0) == 0) by {
        assert(u * 0 == 0) by (nonlinear_arith);
        vstd::arithmetic::div_mod::lemma_small_mod(0, p);
    }
    assert(horner(p, Seq::<nat>::empty(), u) == 0);
    assert(seq![c2.w].first() == c2.w);
    assert(seq![t2].first() == t2);
    assert(horner(p, seq![c2.w], u) == f_add(p, c2.w, 0));
    assert(f_add(p, c2.w, 0) == c2.w);
    assert(horner(p, lhs_terms(cl), u) == f_add(p, c1.w, f_mul(p, u, c2.w)));
    assert(horner(p, seq![t2], u) == f_add(p, t2, 0));
    assert(f_add(p, t2, 0) == t2);
    assert(horner(p, rhs_terms(p, g1, cl), u) == f_add(p, t1, f_mul(p, u, t2)));

    // Distribute the pairing over the fold and rewrite claim by claim.
    lemma_f_mul_distrib(p, c1.w, f_mul(p, u, c2.w), s2);
    lemma_f_mul_assoc(p, u, c2.w, s2);
    lemma_f_mul_assoc(p, u, t2, g2);
    lemma_f_mul_distrib(p, t1, f_mul(p, u, t2), g2);
}

} // verus!
