//! Generic verifier for succinct non-interactive proofs over a PLONKish
//! arithmetization.
//!
//! The engine is organised leaf-first:
//! - [`arith`]: the prime-field arithmetic the whole verifier is written over;
//! - [`loader`]: the arithmetic backend abstraction, with a native backend
//!   (immediate evaluation) and a symbolic backend (emission of an instruction
//!   trace for a constrained target, alongside shadow values);
//! - [`transcript`]: the Fiat-Shamir challenge engine, built only against the
//!   loader capability;
//! - [`protocol`]: the declarative protocol descriptor and the compiler that
//!   produces it from verifying-key data;
//! - [`pcs`]: accumulation of polynomial-commitment opening claims into a
//!   single deferred pairing check;
//! - [`plonk`]: the verifier orchestrator that ties the pieces into a
//!   single-pass accept/reject state machine.

use vstd::prelude::*;

use crate::loader::{trace_wf, Instr, LoaderKind};
use crate::pcs::KzgDecidingKey;
use crate::plonk::{outcome, Outcome, PlonkVerifier};
use crate::protocol::{compile, compiled_view, vk_consistent, Config, VerifyingKeyData};

pub mod arith;
pub mod loader;
pub mod pcs;
pub mod protocol;
pub mod plonk;
pub mod transcript;

verus! {

/// Error that could happen while verification.
#[derive(Clone, Debug)]
pub enum Error {
    /// Instances that don't match the amount specified in protocol.
    InvalidInstances,
    /// Protocol that is unreasonable for a verifier.
    InvalidProtocol(String),
    /// Assertion failure while verification.
    AssertionFailure(String),
    /// Transcript error.
    Transcript(TranscriptErrorKind, String),
}

/// Classification of a malformed or truncated proof stream.
#[derive(Clone, Copy, Debug, PartialEq, Eq, Structural)]
pub enum TranscriptErrorKind {
    /// The proof stream ended before every element described by the protocol
    /// was read.
    UnexpectedEnd,
    /// A stream element is not a canonical field element.
    InvalidData,
}

/// Compile the given verifying key for a single one-row instance column and
/// emit, through the symbolic backend, the verification procedure for the
/// given instances and proof — the entry point for producing a deployable
/// verifier rather than an immediate decision.
///
/// Succeeds exactly when the key is consistent and the run accepts; the
/// artifact is the complete, well-formed emission trace, ending in the one
/// deferred pairing check.
pub fn aleph_zero_wants_to_verify(
    vkd: &VerifyingKeyData,
    dk: &KzgDecidingKey,
    instances: &Vec<Vec<u64>>,
    proof: Vec<u64>,
) -> (r: Result<Vec<Instr>, Error>)
    requires
        dk.wf(vkd.modulus as nat),
    ensures
        r matches Err(Error::InvalidProtocol(_)) <==> !vk_consistent(*vkd, seq![1usize]),
        r is Ok <==> vk_consistent(*vkd, seq![1usize]) && outcome(
            LoaderKind::Symbolic,
            compiled_view(*vkd, seq![1usize]),
            *dk,
            instances@,
            proof@,
        ) == Outcome::Accept,
        r matches Ok(tr) ==> tr@.len() > 0 && trace_wf(tr@) && (tr@.last() matches
        Instr::PairingCheck { .. }),
        vk_consistent(*vkd, seq![1usize]) ==> {
            &&& (outcome(
                LoaderKind::Symbolic,
                compiled_view(*vkd, seq![1usize]),
                *dk,
                instances@,
                proof@,
            ) == Outcome::BadInstances <==> r matches Err(Error::InvalidInstances))
            &&& (outcome(
                LoaderKind::Symbolic,
                compiled_view(*vkd, seq![1usize]),
                *dk,
                instances@,
                proof@,
            ) == Outcome::BadProof <==> r matches Err(Error::Transcript(_, _)))
            &&& (outcome(
                LoaderKind::Symbolic,
                compiled_view(*vkd, seq![1usize]),
                *dk,
                instances@,
                proof@,
            ) == Outcome::BadIdentity <==> r matches Err(Error::AssertionFailure(_)))
        },
{
    let mut num_instance: Vec<usize> = Vec::new();
    num_instance.push(1);
    proof {
        assert(num_instance@ =~= seq![1usize]);
    }
    let d = match compile(vkd, Config::kzg().with_num_instance(num_instance)) {
        Ok(d) => d,
        Err(e) => {
            return Err(e);
        },
    };
    let (_state, l, res) = PlonkVerifier::run(
        LoaderKind::Symbolic,
        &d,
        dk,
        instances,
        proof,
    );
    match res {
        Ok(_acc) => Ok(l.trace),
        Err(e) => Err(e),
    }
}

} // verus!
