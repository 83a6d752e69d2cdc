//! The arithmetic-backend abstraction ("loader").
//!
//! A [`Loader`] offers field and curve-point operations to every other
//! component. It comes in exactly two kinds:
//! - [`LoaderKind::Native`]: each operation is evaluated immediately and the
//!   result is a concrete value;
//! - [`LoaderKind::Symbolic`]: each operation appends one [`Instr`] to an
//!   emission trace (for later translation into a restricted target
//!   instruction set) and simultaneously computes a shadow concrete value,
//!   so that one algorithm behaves identically against either kind.
//!
//! Every operation's contract pins the produced value to the spec-level field
//! arithmetic of [`crate::arith`], independently of the kind; this is what
//! makes cross-backend equivalence of derived challenges structural rather
//! than incidental. The trace is append-only and well formed: an instruction
//! only ever refers to results of strictly earlier instructions.

use vstd::prelude::*;
use crate::arith::{f_add, f_sub, f_mul, f_neg, f_inv, add_mod, sub_mod, mul_mod, neg_mod, inv_mod};

verus! {

/// One instruction of the symbolic emission trace. Operand fields refer to
/// the trace index whose result they consume.
#[derive(Clone, Copy, Debug, PartialEq, Eq, Structural)]
pub enum Instr {
    /// Load an immediate field element.
    Const(u64),
    /// Load an immediate curve point (a commitment fixed by the key).
    ConstPoint(u64),
    /// Read the next scalar from the proof stream.
    ReadScalar,
    /// Read the next curve point from the proof stream.
    ReadPoint,
    /// Load one public-instance value.
    LoadInstance,
    /// Field addition of two earlier scalars.
    Add(usize, usize),
    /// Field subtraction of two earlier scalars.
    Sub(usize, usize),
    /// Field multiplication of two earlier scalars.
    Mul(usize, usize),
    /// Field negation of an earlier scalar.
    Neg(usize),
    /// Field inversion of an earlier scalar.
    Inv(usize),
    /// Addition of two earlier curve points.
    PointAdd(usize, usize),
    /// Multiplication of an earlier point (second) by an earlier scalar (first).
    ScalarMul(usize, usize),
    /// Final deferred pairing equality between two earlier accumulated points,
    /// against the two fixed second-group elements of the deciding key.
    PairingCheck { lhs: usize, rhs: usize, g2: u64, s_g2: u64 },
}

/// Which arithmetic substrate a loader drives.
#[derive(Clone, Copy, Debug, PartialEq, Eq, Structural)]
pub enum LoaderKind {
    /// Immediate evaluation; verification ends in a concrete boolean.
    Native,
    /// Trace emission with shadow evaluation; verification ends in a trace.
    Symbolic,
}

/// An instruction may only consume results of strictly earlier instructions.
pub open spec fn instr_wf(i: Instr, idx: nat) -> bool {
    match i {
        Instr::Const(_) => true,
        Instr::ConstPoint(_) => true,
        Instr::ReadScalar => true,
        Instr::ReadPoint => true,
        Instr::LoadInstance => true,
        Instr::Add(a, b) => a < idx && b < idx,
        Instr::Sub(a, b) => a < idx && b < idx,
        Instr::Mul(a, b) => a < idx && b < idx,
        Instr::Neg(a) => a < idx,
        Instr::Inv(a) => a < idx,
        Instr::PointAdd(a, b) => a < idx && b < idx,
        Instr::ScalarMul(a, b) => a < idx && b < idx,
        Instr::PairingCheck { lhs, rhs, .. } => lhs < idx && rhs < idx,
    }
}

/// The value of a multi-scalar multiplication: the sum over all pairs of
/// the point's exponent scaled by the scalar.
pub open spec fn msm_val(p: nat, ss: Seq<LoadedScalar>, ps: Seq<LoadedEcPoint>) -> nat
    recommends
        ss.len() == ps.len(),
    decreases ss.len(),
{
    if ss.len() == 0 {
        0
    } else {
        f_add(
            p,
            f_mul(p, ss.last().value(), ps.last().value()),
            msm_val(p, ss.drop_last(), ps.drop_last()),
        )
    }
}

/// A trace is well formed when every instruction is.
pub open spec fn trace_wf(t: Seq<Instr>) -> bool {
    forall|i: int| 0 <= i < t.len() ==> instr_wf(#[trigger] t[i], i as nat)
}

/// Appending an instruction that only looks backwards keeps a trace well formed.
pub proof fn lemma_trace_wf_push(t: Seq<Instr>, i: Instr)
    requires
        trace_wf(t),
        instr_wf(i, t.len()),
    ensures
        trace_wf(t.push(i)),
{
    assert forall|j: int| 0 <= j < t.push(i).len() implies instr_wf(#[trigger] t.push(i)[j], j as nat) by {
        if j < t.len() {
            assert(t.push(i)[j] == t[j]);
        } else {
            assert(t.push(i)[j] == i);
        }
    }
}

/// The trace only ever grows: `post` keeps every instruction of `pre`.
pub open spec fn trace_extends(post: Seq<Instr>, pre: Seq<Instr>) -> bool {
    &&& pre.len() <= post.len()
    &&& forall|i: int| 0 <= i < pre.len() ==> post[i] == #[trigger] pre[i]
}

/// The arithmetic loader: one per verification run, owning the emission
/// trace in symbolic mode.
pub struct Loader {
    /// Which substrate this loader drives.
    pub kind: LoaderKind,
    /// The field modulus; every loaded scalar and point exponent is a
    /// canonical residue below it.
    pub modulus: u64,
    /// The emission trace; empty and never touched in native mode.
    pub trace: Vec<Instr>,
}

/// A backend-tagged field element.
#[derive(Clone, Copy, Debug)]
pub enum LoadedScalar {
    /// A concrete value produced by a native loader.
    Native {
        /// The canonical field value.
        value: u64,
    },
    /// A reference into a symbolic loader's trace, with the shadow value the
    /// emitted program would compute.
    Symbolic {
        /// The trace index of the instruction that produced this value.
        id: usize,
        /// The shadow concrete value, for simulation and testing.
        shadow: u64,
    },
}

/// A backend-tagged curve point, modelled by its exponent with respect to a
/// fixed generator.
#[derive(Clone, Copy, Debug)]
pub enum LoadedEcPoint {
    /// A concrete point produced by a native loader.
    Native {
        /// The point's exponent.
        value: u64,
    },
    /// A reference into a symbolic loader's trace, with the shadow exponent.
    Symbolic {
        /// The trace index of the instruction that produced this point.
        id: usize,
        /// The shadow exponent, for simulation and testing.
        shadow: u64,
    },
}

impl LoadedScalar {
    /// The concrete field value this scalar denotes (the shadow value in
    /// symbolic mode).
    pub open spec fn value(self) -> nat {
        match self {
            LoadedScalar::Native { value } => value as nat,
            LoadedScalar::Symbolic { shadow, .. } => shadow as nat,
        }
    }

    /// The trace index, meaningful only for symbolic values.
    pub open spec fn sym_id(self) -> usize {
        match self {
            LoadedScalar::Native { .. } => 0,
            LoadedScalar::Symbolic { id, .. } => id,
        }
    }

    /// Produced and still owned by the given loader: canonical, of the
    /// loader's kind, and (symbolically) defined by an existing instruction.
    pub open spec fn wf(self, l: Loader) -> bool {
        &&& self.value() < l.modulus
        &&& match self {
            LoadedScalar::Native { .. } => l.kind == LoaderKind::Native,
            LoadedScalar::Symbolic { id, .. } => l.kind == LoaderKind::Symbolic && (id as nat)
                < l.trace@.len(),
        }
    }

    /// The concrete value, for native decisions and shadow comparisons.
    pub fn val(&self) -> (v: u64)
        ensures
            v as nat == self.value(),
    {
        match self {
            LoadedScalar::Native { value } => *value,
            LoadedScalar::Symbolic { shadow, .. } => *shadow,
        }
    }

    fn id_of(&self) -> (i: usize)
        ensures
            i == self.sym_id(),
    {
        match self {
            LoadedScalar::Native { .. } => 0,
            LoadedScalar::Symbolic { id, .. } => *id,
        }
    }
}

impl LoadedEcPoint {
    /// The exponent this point denotes (the shadow value in symbolic mode).
    pub open spec fn value(self) -> nat {
        match self {
            LoadedEcPoint::Native { value } => value as nat,
            LoadedEcPoint::Symbolic { shadow, .. } => shadow as nat,
        }
    }

    /// The trace index, meaningful only for symbolic values.
    pub open spec fn sym_id(self) -> usize {
        match self {
            LoadedEcPoint::Native { .. } => 0,
            LoadedEcPoint::Symbolic { id, .. } => id,
        }
    }

    /// Produced and still owned by the given loader.
    pub open spec fn wf(self, l: Loader) -> bool {
        &&& self.value() < l.modulus
        &&& match self {
            LoadedEcPoint::Native { .. } => l.kind == LoaderKind::Native,
            LoadedEcPoint::Symbolic { id, .. } => l.kind == LoaderKind::Symbolic && (id as nat)
                < l.trace@.len(),
        }
    }

    /// The concrete exponent, for native decisions and shadow comparisons.
    pub fn val(&self) -> (v: u64)
        ensures
            v as nat == self.value(),
    {
        match self {
            LoadedEcPoint::Native { value } => *value,
            LoadedEcPoint::Symbolic { shadow, .. } => *shadow,
        }
    }

    fn id_of(&self) -> (i: usize)
        ensures
            i == self.sym_id(),
    {
        match self {
            LoadedEcPoint::Native { .. } => 0,
            LoadedEcPoint::Symbolic { id, .. } => *id,
        }
    }
}

/// The step relation every loader operation preserves: same kind and
/// modulus, well-formedness kept, trace extended append-only.
pub open spec fn step_ok(pre: Loader, post: Loader) -> bool {
    &&& post.wf()
    &&& post.kind == pre.kind
    &&& post.modulus == pre.modulus
    &&& trace_extends(post.trace@, pre.trace@)
}

/// What one operation leaves in the trace: nothing natively, exactly one
/// instruction symbolically.
pub open spec fn emits(pre: Loader, post: Loader, i: Instr) -> bool {
    if pre.kind == LoaderKind::Native {
        post.trace@ == pre.trace@
    } else {
        post.trace@ == pre.trace@.push(i)
    }
}

/// A scalar stays owned by a loader across any later operation of that
/// loader.
pub broadcast proof fn lemma_scalar_wf_mono(s: LoadedScalar, pre: Loader, post: Loader)
    requires
        step_ok(pre, post),
        #[trigger] s.wf(pre),
    ensures
        #[trigger] s.wf(post),
{
}

/// A point stays owned by a loader across any later operation of that loader.
pub broadcast proof fn lemma_point_wf_mono(q: LoadedEcPoint, pre: Loader, post: Loader)
    requires
        step_ok(pre, post),
        #[trigger] q.wf(pre),
    ensures
        #[trigger] q.wf(post),
{
}

impl Loader {
    /// Loader invariant: a usable modulus, a well-formed trace, and no trace
    /// at all in native mode.
    pub open spec fn wf(self) -> bool {
        &&& 2 <= self.modulus
        &&& (self.kind == LoaderKind::Native ==> self.trace@.len() == 0)
        &&& trace_wf(self.trace@)
    }

    /// A fresh loader for one verification run.
    pub fn new(kind: LoaderKind, modulus: u64) -> (l: Loader)
        requires
            2 <= modulus,
        ensures
            l.wf(),
            l.kind == kind,
            l.modulus == modulus,
            l.trace@ =~= Seq::<Instr>::empty(),
    {
        Loader { kind, modulus, trace: Vec::new() }
    }

    fn emit_scalar_op(&mut self, i: Instr, v: u64) -> (r: LoadedScalar)
        requires
            old(self).wf(),
            v < old(self).modulus,
            old(self).kind == LoaderKind::Symbolic ==> instr_wf(i, old(self).trace@.len()),
        ensures
            step_ok(*old(self), *final(self)),
            emits(*old(self), *final(self), i),
            r.wf(*final(self)),
            r.value() == v as nat,
    {
        match self.kind {
            LoaderKind::Native => LoadedScalar::Native { value: v },
            LoaderKind::Symbolic => {
                let id = self.trace.len();
                proof {
                    lemma_trace_wf_push(self.trace@, i);
                }
                self.trace.push(i);
                LoadedScalar::Symbolic { id, shadow: v }
            },
        }
    }

    fn emit_point_op(&mut self, i: Instr, v: u64) -> (r: LoadedEcPoint)
        requires
            old(self).wf(),
            v < old(self).modulus,
            old(self).kind == LoaderKind::Symbolic ==> instr_wf(i, old(self).trace@.len()),
        ensures
            step_ok(*old(self), *final(self)),
            emits(*old(self), *final(self), i),
            r.wf(*final(self)),
            r.value() == v as nat,
    {
        match self.kind {
            LoaderKind::Native => LoadedEcPoint::Native { value: v },
            LoaderKind::Symbolic => {
                let id = self.trace.len();
                proof {
                    lemma_trace_wf_push(self.trace@, i);
                }
                self.trace.push(i);
                LoadedEcPoint::Symbolic { id, shadow: v }
            },
        }
    }

    /// Load an immediate field element.
    pub fn load_const(&mut self, v: u64) -> (r: LoadedScalar)
        requires
            old(self).wf(),
            v < old(self).modulus,
        ensures
            step_ok(*old(self), *final(self)),
            emits(*old(self), *final(self), Instr::Const(v)),
            r.wf(*final(self)),
            r.value() == v as nat,
    {
        self.emit_scalar_op(Instr::Const(v), v)
    }

    /// Load an immediate curve point, such as a commitment fixed by the key.
    pub fn load_const_point(&mut self, v: u64) -> (r: LoadedEcPoint)
        requires
            old(self).wf(),
            v < old(self).modulus,
        ensures
            step_ok(*old(self), *final(self)),
            emits(*old(self), *final(self), Instr::ConstPoint(v)),
            r.wf(*final(self)),
            r.value() == v as nat,
    {
        self.emit_point_op(Instr::ConstPoint(v), v)
    }

    /// Bring the next proof-stream scalar into the run.
    pub fn stream_scalar(&mut self, v: u64) -> (r: LoadedScalar)
        requires
            old(self).wf(),
            v < old(self).modulus,
        ensures
            step_ok(*old(self), *final(self)),
            emits(*old(self), *final(self), Instr::ReadScalar),
            r.wf(*final(self)),
            r.value() == v as nat,
    {
        self.emit_scalar_op(Instr::ReadScalar, v)
    }

    /// Bring the next proof-stream curve point into the run.
    pub fn stream_point(&mut self, v: u64) -> (r: LoadedEcPoint)
        requires
            old(self).wf(),
            v < old(self).modulus,
        ensures
            step_ok(*old(self), *final(self)),
            emits(*old(self), *final(self), Instr::ReadPoint),
            r.wf(*final(self)),
            r.value() == v as nat,
    {
        self.emit_point_op(Instr::ReadPoint, v)
    }

    /// Bring one public-instance value into the run.
    pub fn load_instance(&mut self, v: u64) -> (r: LoadedScalar)
        requires
            old(self).wf(),
            v < old(self).modulus,
        ensures
            step_ok(*old(self), *final(self)),
            emits(*old(self), *final(self), Instr::LoadInstance),
            r.wf(*final(self)),
            r.value() == v as nat,
    {
        self.emit_scalar_op(Instr::LoadInstance, v)
    }

    /// Field addition.
    pub fn add(&mut self, a: &LoadedScalar, b: &LoadedScalar) -> (r: LoadedScalar)
        requires
            old(self).wf(),
            a.wf(*old(self)),
            b.wf(*old(self)),
        ensures
            step_ok(*old(self), *final(self)),
            emits(*old(self), *final(self), Instr::Add(a.sym_id(), b.sym_id())),
            r.wf(*final(self)),
            r.value() == f_add(old(self).modulus as nat, a.value(), b.value()),
    {
        let v = add_mod(self.modulus, a.val(), b.val());
        self.emit_scalar_op(Instr::Add(a.id_of(), b.id_of()), v)
    }

    /// Field subtraction.
    pub fn sub(&mut self, a: &LoadedScalar, b: &LoadedScalar) -> (r: LoadedScalar)
        requires
            old(self).wf(),
            a.wf(*old(self)),
            b.wf(*old(self)),
        ensures
            step_ok(*old(self), *final(self)),
            emits(*old(self), *final(self), Instr::Sub(a.sym_id(), b.sym_id())),
            r.wf(*final(self)),
            r.value() == f_sub(old(self).modulus as nat, a.value(), b.value()),
    {
        let v = sub_mod(self.modulus, a.val(), b.val());
        self.emit_scalar_op(Instr::Sub(a.id_of(), b.id_of()), v)
    }

    /// Field multiplication.
    pub fn mul(&mut self, a: &LoadedScalar, b: &LoadedScalar) -> (r: LoadedScalar)
        requires
            old(self).wf(),
            a.wf(*old(self)),
            b.wf(*old(self)),
        ensures
            step_ok(*old(self), *final(self)),
            emits(*old(self), *final(self), Instr::Mul(a.sym_id(), b.sym_id())),
            r.wf(*final(self)),
            r.value() == f_mul(old(self).modulus as nat, a.value(), b.value()),
    {
        let v = mul_mod(self.modulus, a.val(), b.val());
        self.emit_scalar_op(Instr::Mul(a.id_of(), b.id_of()), v)
    }

    /// Field negation.
    pub fn neg(&mut self, a: &LoadedScalar) -> (r: LoadedScalar)
        requires
            old(self).wf(),
            a.wf(*old(self)),
        ensures
            step_ok(*old(self), *final(self)),
            emits(*old(self), *final(self), Instr::Neg(a.sym_id())),
            r.wf(*final(self)),
            r.value() == f_neg(old(self).modulus as nat, a.value()),
    {
        let v = neg_mod(self.modulus, a.val());
        self.emit_scalar_op(Instr::Neg(a.id_of()), v)
    }

    /// Field inversion, as the Fermat power.
    pub fn invert(&mut self, a: &LoadedScalar) -> (r: LoadedScalar)
        requires
            old(self).wf(),
            a.wf(*old(self)),
        ensures
            step_ok(*old(self), *final(self)),
            emits(*old(self), *final(self), Instr::Inv(a.sym_id())),
            r.wf(*final(self)),
            r.value() == f_inv(old(self).modulus as nat, a.value()),
    {
        let v = inv_mod(self.modulus, a.val());
        self.emit_scalar_op(Instr::Inv(a.id_of()), v)
    }

    /// Curve-point addition.
    pub fn ec_add(&mut self, a: &LoadedEcPoint, b: &LoadedEcPoint) -> (r: LoadedEcPoint)
        requires
            old(self).wf(),
            a.wf(*old(self)),
            b.wf(*old(self)),
        ensures
            step_ok(*old(self), *final(self)),
            emits(*old(self), *final(self), Instr::PointAdd(a.sym_id(), b.sym_id())),
            r.wf(*final(self)),
            r.value() == f_add(old(self).modulus as nat, a.value(), b.value()),
    {
        let v = add_mod(self.modulus, a.val(), b.val());
        self.emit_point_op(Instr::PointAdd(a.id_of(), b.id_of()), v)
    }

    /// Multiplication of a curve point by a scalar.
    pub fn scalar_mul(&mut self, s: &LoadedScalar, q: &LoadedEcPoint) -> (r: LoadedEcPoint)
        requires
            old(self).wf(),
            s.wf(*old(self)),
            q.wf(*old(self)),
        ensures
            step_ok(*old(self), *final(self)),
            emits(*old(self), *final(self), Instr::ScalarMul(s.sym_id(), q.sym_id())),
            r.wf(*final(self)),
            r.value() == f_mul(old(self).modulus as nat, s.value(), q.value()),
    {
        let v = mul_mod(self.modulus, s.val(), q.val());
        self.emit_point_op(Instr::ScalarMul(s.id_of(), q.id_of()), v)
    }

    /// Multi-scalar multiplication: the sum of each point scaled by its
    /// scalar, expressed through the elementary operations so that a
    /// symbolic run emits the whole combination.
    #[verifier::loop_isolation(false)]
    pub fn msm(&mut self, scalars: &Vec<LoadedScalar>, points: &Vec<LoadedEcPoint>) -> (r:
        LoadedEcPoint)
        requires
            old(self).wf(),
            scalars@.len() == points@.len(),
            forall|i: int| 0 <= i < scalars@.len() ==> (#[trigger] scalars@[i]).wf(*old(self)),
            forall|i: int| 0 <= i < points@.len() ==> (#[trigger] points@[i]).wf(*old(self)),
        ensures
            step_ok(*old(self), *final(self)),
            r.wf(*final(self)),
            r.value() == msm_val(old(self).modulus as nat, scalars@, points@),
    {
        broadcast use lemma_scalar_wf_mono;
        broadcast use lemma_point_wf_mono;

        let ghost p = old(self).modulus as nat;
        let mut acc = self.load_const_point(0);
        let mut i: usize = 0;
        proof {
            assert(scalars@.take(0) =~= Seq::<LoadedScalar>::empty());
            assert(points@.take(0) =~= Seq::<LoadedEcPoint>::empty());
        }
        while i < scalars.len()
            invariant
                self.wf(),
                self.kind == old(self).kind,
                self.modulus == old(self).modulus,
                trace_extends(self.trace@, old(self).trace@),
                i <= scalars@.len(),
                forall|j: int| 0 <= j < scalars@.len() ==> (#[trigger] scalars@[j]).wf(*self),
                forall|j: int| 0 <= j < points@.len() ==> (#[trigger] points@[j]).wf(*self),
                acc.wf(*self),
                acc.value() == msm_val(p, scalars@.take(i as int), points@.take(i as int)),
            decreases scalars@.len() - i,
        {
            let term = self.scalar_mul(&scalars[i], &points[i]);
            let next = self.ec_add(&acc, &term);
            proof {
                assert(scalars@.take(i + 1).drop_last() =~= scalars@.take(i as int));
                assert(points@.take(i + 1).drop_last() =~= points@.take(i as int));
                assert(scalars@.take(i + 1).last() == scalars@[i as int]);
                assert(points@.take(i + 1).last() == points@[i as int]);
            }
            acc = next;
            i = i + 1;
        }
        proof {
            assert(scalars@.take(scalars@.len() as int) =~= scalars@);
            assert(points@.take(points@.len() as int) =~= points@);
        }
        acc
    }

    /// The one pairing equality ending a run: natively an immediate boolean,
    /// symbolically an emitted deferred check (the boolean is then simply
    /// "the check was emitted").
    pub fn pairing_check(&mut self, lhs: &LoadedEcPoint, rhs: &LoadedEcPoint, g2: u64, s_g2: u64) -> (r:
        bool)
        requires
            old(self).wf(),
            lhs.wf(*old(self)),
            rhs.wf(*old(self)),
            g2 < old(self).modulus,
            s_g2 < old(self).modulus,
        ensures
            step_ok(*old(self), *final(self)),
            emits(
                *old(self),
                *final(self),
                Instr::PairingCheck { lhs: lhs.sym_id(), rhs: rhs.sym_id(), g2, s_g2 },
            ),
            old(self).kind == LoaderKind::Native ==> r == (f_mul(
                old(self).modulus as nat,
                lhs.value(),
                s_g2 as nat,
            ) == f_mul(old(self).modulus as nat, rhs.value(), g2 as nat)),
            old(self).kind == LoaderKind::Symbolic ==> r,
    {
        let i = Instr::PairingCheck { lhs: lhs.id_of(), rhs: rhs.id_of(), g2, s_g2 };
        match self.kind {
            LoaderKind::Native => {
                let a = mul_mod(self.modulus, lhs.val(), s_g2);
                let b = mul_mod(self.modulus, rhs.val(), g2);
                a == b
            },
            LoaderKind::Symbolic => {
                proof {
                    lemma_trace_wf_push(self.trace@, i);
                }
                self.trace.push(i);
                true
            },
        }
    }
}

} // verus!
