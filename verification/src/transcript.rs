//! The Fiat-Shamir transcript, built only against the loader capability.
//!
//! Challenges are a pure function of everything absorbed so far: the state is
//! an algebraic sponge over the loader's field, so the same derivation runs
//! natively and inside the emitted symbolic trace. Absorption order is fixed
//! by the protocol; every proof element read is absorbed at the moment it is
//! read.
//!
//! The sponge: absorbing `v` maps state `s` to `s * TS_ABSORB + v`; squeezing
//! maps `s` to `s * s + TS_SQUEEZE` and yields the new state as the
//! challenge, with both constants reduced into the field.

use vstd::prelude::*;
use crate::arith::{f_add, f_mul};
use crate::loader::{step_ok, trace_extends, LoadedEcPoint, LoadedScalar, Loader};
use crate::{Error, TranscriptErrorKind};

verus! {

/// Initial sponge state before anything is absorbed.
pub const TS_INIT: u64 = 5;

/// State multiplier applied on each absorption.
pub const TS_ABSORB: u64 = 31;

/// Constant added on each squeeze.
pub const TS_SQUEEZE: u64 = 17;

/// The sponge state at the start of a run.
pub open spec fn ts_init(p: nat) -> nat {
    TS_INIT as nat % p
}

/// The sponge state after absorbing one value.
pub open spec fn ts_absorb(p: nat, s: nat, v: nat) -> nat {
    f_add(p, f_mul(p, s, TS_ABSORB as nat % p), v)
}

/// The sponge state after absorbing a sequence of values, left to right.
pub open spec fn ts_absorb_seq(p: nat, s: nat, vs: Seq<u64>) -> nat
    decreases vs.len(),
{
    if vs.len() == 0 {
        s
    } else {
        ts_absorb(p, ts_absorb_seq(p, s, vs.drop_last()), vs.last() as nat)
    }
}

/// The sponge state after one squeeze; the new state is the challenge.
pub open spec fn ts_squeeze(p: nat, s: nat) -> nat {
    f_add(p, f_mul(p, s, s), TS_SQUEEZE as nat % p)
}

/// The sponge state after `n` squeezes in a row.
pub open spec fn ts_squeeze_n(p: nat, s: nat, n: nat) -> nat
    decreases n,
{
    if n == 0 {
        s
    } else {
        ts_squeeze(p, ts_squeeze_n(p, s, (n - 1) as nat))
    }
}

/// The sequence of `n` challenges squeezed in a row from state `s`.
pub open spec fn ts_challenges(p: nat, s: nat, n: nat) -> Seq<nat> {
    Seq::new(n, |i: int| ts_squeeze_n(p, s, (i + 1) as nat))
}

/// Mutable sponge state plus the proof stream it reads from, owned
/// exclusively by one verification run.
pub struct Transcript {
    /// The sponge state, held as a loaded value so that challenge derivation
    /// is itself expressed through the bound loader.
    pub state: LoadedScalar,
    /// The absorption multiplier, loaded once.
    pub mult: LoadedScalar,
    /// The squeeze constant, loaded once.
    pub incr: LoadedScalar,
    /// The proof stream: field elements in the protocol's fixed order.
    pub stream: Vec<u64>,
    /// How many stream elements were read so far.
    pub pos: usize,
}

impl Transcript {
    /// Owned by, and consistent with, the given loader.
    pub open spec fn wf(self, l: Loader) -> bool {
        &&& self.state.wf(l)
        &&& self.mult.wf(l)
        &&& self.incr.wf(l)
        &&& self.mult.value() == TS_ABSORB as nat % l.modulus as nat
        &&& self.incr.value() == TS_SQUEEZE as nat % l.modulus as nat
        &&& self.pos <= self.stream@.len()
    }

    /// A fresh transcript over the given proof stream, with the initial
    /// sponge state.
    pub fn new(l: &mut Loader, stream: Vec<u64>) -> (t: Transcript)
        requires
            old(l).wf(),
        ensures
            step_ok(*old(l), *final(l)),
            t.wf(*final(l)),
            t.state.value() == ts_init(final(l).modulus as nat),
            t.stream@ == stream@,
            t.pos == 0,
    {
        let state = l.load_const(TS_INIT % l.modulus);
        let mult = l.load_const(TS_ABSORB % l.modulus);
        let incr = l.load_const(TS_SQUEEZE % l.modulus);
        Transcript { state, mult, incr, stream, pos: 0 }
    }

    /// Absorb one already-loaded value into the sponge.
    pub fn absorb(&mut self, l: &mut Loader, v: &LoadedScalar)
        requires
            old(l).wf(),
            old(self).wf(*old(l)),
            v.wf(*old(l)),
        ensures
            step_ok(*old(l), *final(l)),
            final(self).wf(*final(l)),
            final(self).state.value() == ts_absorb(
                old(l).modulus as nat,
                old(self).state.value(),
                v.value(),
            ),
            final(self).stream@ == old(self).stream@,
            final(self).pos == old(self).pos,
    {
        let scaled = l.mul(&self.state, &self.mult);
        self.state = l.add(&scaled, v);
    }

    /// Squeeze one challenge; the sponge state advances and the challenge is
    /// the new state.
    pub fn squeeze_challenge(&mut self, l: &mut Loader) -> (c: LoadedScalar)
        requires
            old(l).wf(),
            old(self).wf(*old(l)),
        ensures
            step_ok(*old(l), *final(l)),
            final(self).wf(*final(l)),
            c.wf(*final(l)),
            c.value() == ts_squeeze(old(l).modulus as nat, old(self).state.value()),
            final(self).state.value() == c.value(),
            final(self).stream@ == old(self).stream@,
            final(self).pos == old(self).pos,
    {
        let sq = l.mul(&self.state, &self.state);
        self.state = l.add(&sq, &self.incr);
        self.state
    }

    /// Read the next scalar from the proof stream and absorb it. Fails when
    /// the stream is exhausted or the element is not canonical, leaving the
    /// transcript and the loader untouched.
    pub fn read_scalar(&mut self, l: &mut Loader) -> (r: Result<LoadedScalar, Error>)
        requires
            old(l).wf(),
            old(self).wf(*old(l)),
        ensures
            step_ok(*old(l), *final(l)),
            final(self).wf(*final(l)),
            final(self).stream@ == old(self).stream@,
            r is Ok <==> old(self).pos < old(self).stream@.len()
                && old(self).stream@[old(self).pos as int] < old(l).modulus,
            r matches Ok(v) ==> {
                &&& v.wf(*final(l))
                &&& v.value() == old(self).stream@[old(self).pos as int] as nat
                &&& final(self).pos == old(self).pos + 1
                &&& final(self).state.value() == ts_absorb(
                    old(l).modulus as nat,
                    old(self).state.value(),
                    v.value(),
                )
            },
            r is Err ==> {
                &&& *final(self) == *old(self)
                &&& *final(l) == *old(l)
            },
            old(self).pos >= old(self).stream@.len() ==> r matches Err(
                Error::Transcript(TranscriptErrorKind::UnexpectedEnd, _),
            ),
            (old(self).pos < old(self).stream@.len() && old(self).stream@[old(self).pos as int]
                >= old(l).modulus) ==> r matches Err(
                Error::Transcript(TranscriptErrorKind::InvalidData, _),
            ),
    {
        if self.pos >= self.stream.len() {
            return Err(
                Error::Transcript(
                    TranscriptErrorKind::UnexpectedEnd,
                    String::from_str("proof stream ended while reading a scalar"),
                ),
            );
        }
        let raw = self.stream[self.pos];
        if raw >= l.modulus {
            return Err(
                Error::Transcript(
                    TranscriptErrorKind::InvalidData,
                    String::from_str("proof scalar is not a canonical field element"),
                ),
            );
        }
        self.pos = self.pos + 1;
        let v = l.stream_scalar(raw);
        self.absorb(l, &v);
        Ok(v)
    }

    /// Read the next curve point from the proof stream and absorb it. Fails
    /// as [`Self::read_scalar`] does, leaving everything untouched.
    pub fn read_point(&mut self, l: &mut Loader) -> (r: Result<LoadedEcPoint, Error>)
        requires
            old(l).wf(),
            old(self).wf(*old(l)),
        ensures
            step_ok(*old(l), *final(l)),
            final(self).wf(*final(l)),
            final(self).stream@ == old(self).stream@,
            r is Ok <==> old(self).pos < old(self).stream@.len()
                && old(self).stream@[old(self).pos as int] < old(l).modulus,
            r matches Ok(v) ==> {
                &&& v.wf(*final(l))
                &&& v.value() == old(self).stream@[old(self).pos as int] as nat
                &&& final(self).pos == old(self).pos + 1
                &&& final(self).state.value() == ts_absorb(
                    old(l).modulus as nat,
                    old(self).state.value(),
                    v.value(),
                )
            },
            r is Err ==> {
                &&& *final(self) == *old(self)
                &&& *final(l) == *old(l)
            },
            old(self).pos >= old(self).stream@.len() ==> r matches Err(
                Error::Transcript(TranscriptErrorKind::UnexpectedEnd, _),
            ),
            (old(self).pos < old(self).stream@.len() && old(self).stream@[old(self).pos as int]
                >= old(l).modulus) ==> r matches Err(
                Error::Transcript(TranscriptErrorKind::InvalidData, _),
            ),
    {
        if self.pos >= self.stream.len() {
            return Err(
                Error::Transcript(
                    TranscriptErrorKind::UnexpectedEnd,
                    String::from_str("proof stream ended while reading a point"),
                ),
            );
        }
        let raw = self.stream[self.pos];
        if raw >= l.modulus {
            return Err(
                Error::Transcript(
                    TranscriptErrorKind::InvalidData,
                    String::from_str("proof point is not canonical"),
                ),
            );
        }
        self.pos = self.pos + 1;
        let p = l.stream_point(raw);
        let v = scalar_of_point(l, &p);
        self.absorb(l, &v);
        Ok(p)
    }

    /// Load one column of public-instance values, absorbing each in order.
    /// The caller has already validated shape and canonicity.
    pub fn load_instances(&mut self, l: &mut Loader, values: &Vec<u64>) -> (r: Vec<LoadedScalar>)
        requires
            old(l).wf(),
            old(self).wf(*old(l)),
            forall|i: int| 0 <= i < values@.len() ==> values@[i] < old(l).modulus,
        ensures
            step_ok(*old(l), *final(l)),
            final(self).wf(*final(l)),
            final(self).stream@ == old(self).stream@,
            final(self).pos == old(self).pos,
            final(self).state.value() == ts_absorb_seq(
                old(l).modulus as nat,
                old(self).state.value(),
                values@,
            ),
            r@.len() == values@.len(),
            forall|i: int| 0 <= i < r@.len() ==> (#[trigger] r@[i]).wf(*final(l)) && r@[i].value()
                == values@[i] as nat,
    {
        let ghost p = old(l).modulus as nat;
        let ghost s0 = old(self).state.value();
        let mut out: Vec<LoadedScalar> = Vec::new();
        let mut i: usize = 0;
        while i < values.len()
            invariant
                l.wf(),
                self.wf(*l),
                l.kind == old(l).kind,
                l.modulus == old(l).modulus,
                trace_extends(l.trace@, old(l).trace@),
                self.stream@ == old(self).stream@,
                self.pos == old(self).pos,
                i <= values@.len(),
                forall|j: int| 0 <= j < values@.len() ==> values@[j] < l.modulus,
                p == old(l).modulus as nat,
                s0 == old(self).state.value(),
                self.state.value() == ts_absorb_seq(p, s0, values@.take(i as int)),
                out@.len() == i,
                forall|j: int| 0 <= j < out@.len() ==> (#[trigger] out@[j]).wf(*l) && out@[j].value()
                    == values@[j] as nat,
            decreases values@.len() - i,
        {
            let v = l.load_instance(values[i]);
            self.absorb(l, &v);
            out.push(v);
            proof {
                assert(values@.take(i + 1).drop_last() =~= values@.take(i as int));
                assert(values@.take(i + 1).last() == values@[i as int]);
                assert(ts_absorb_seq(p, s0, values@.take(i + 1)) == ts_absorb(
                    p,
                    ts_absorb_seq(p, s0, values@.take(i as int)),
                    values@[i as int] as nat,
                ));
            }
            i = i + 1;
        }
        proof {
            assert(values@.take(values@.len() as int) =~= values@);
        }
        out
    }
}

/// View a point's exponent as a scalar for absorption purposes.
fn scalar_of_point(l: &Loader, p: &LoadedEcPoint) -> (r: LoadedScalar)
    requires
        l.wf(),
        p.wf(*l),
    ensures
        r.wf(*l),
        r.value() == p.value(),
{
    match p {
        LoadedEcPoint::Native { value } => LoadedScalar::Native { value: *value },
        LoadedEcPoint::Symbolic { id, shadow } => LoadedScalar::Symbolic {
            id: *id,
            shadow: *shadow,
        },
    }
}

} // verus!
