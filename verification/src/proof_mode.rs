//! Which kind of proof a run measures.

use vstd::prelude::*;

use crate::text::same_text;

verus! {

/// The kinds of proof that the benchmark asks the prover for.
#[derive(Clone, Copy, Debug, PartialEq, Eq, Structural)]
pub enum SyntheticProofMode {
    Core,
    Compressed,
    Plonk,
}

impl SyntheticProofMode {
    /// Whether proofs of this mode can be checked by the prover client.
    pub open spec fn verifiable(self) -> bool {
        self is Compressed || self is Plonk
    }

    /// Whether proofs of this mode have an on-chain byte encoding.
    pub open spec fn has_plonk_bytes(self) -> bool {
        self is Plonk
    }

    /// Whether the mode supports verification by the prover client.
    pub fn requires_verification(self) -> (yes: bool)
        ensures
            yes == self.verifiable(),
            yes == !(self is Core),
    {
        matches!(self, SyntheticProofMode::Compressed | SyntheticProofMode::Plonk)
    }

    /// Whether the byte encoding of the resulting proof exists (Plonk only).
    pub fn requires_plonk_bytes(self) -> (yes: bool)
        ensures
            yes == self.has_plonk_bytes(),
            yes == (self is Plonk),
    {
        matches!(self, SyntheticProofMode::Plonk)
    }
}

/// The proof mode for a prover: the provers `mock` and `light` make core proofs, every other one,
/// and the one chosen when none is named, makes Plonk proofs.
pub open spec fn proof_mode_for(prover: Option<Seq<char>>) -> SyntheticProofMode {
    if prover == Some("mock"@) || prover == Some("light"@) {
        SyntheticProofMode::Core
    } else {
        SyntheticProofMode::Plonk
    }
}

/// Chooses the proof mode by the name of the prover, if one is configured.
pub fn selected_proof_mode(prover: Option<&str>) -> (mode: SyntheticProofMode)
    ensures
        mode == proof_mode_for(
            match prover {
                Some(name) => Some(name@),
                None => None,
            },
        ),
        mode is Core <==> (prover matches Some(name) && (name@ == "mock"@ || name@ == "light"@)),
        mode is Core || mode is Plonk,
{
    match prover {
        Some(name) => {
            if same_text(name, "mock") || same_text(name, "light") {
                SyntheticProofMode::Core
            } else {
                SyntheticProofMode::Plonk
            }
        },
        None => SyntheticProofMode::Plonk,
    }
}

/// Whether a prover is the mock prover.
pub open spec fn is_mock(prover: Option<Seq<char>>) -> bool {
    prover == Some("mock"@)
}

/// Whether the configured prover is the mock prover. A smoke test runs with it and goes the whole
/// way of proving and verifying.
pub fn is_mock_prover(prover: Option<&str>) -> (mock: bool)
    ensures
        mock == is_mock(
            match prover {
                Some(name) => Some(name@),
                None => None,
            },
        ),
        mock <==> (prover matches Some(name) && name@ == "mock"@),
{
    match prover {
        Some(name) => same_text(name, "mock"),
        None => false,
    }
}

/// The mock prover makes core proofs.
pub proof fn law_mock_proofs_are_core(prover: Option<Seq<char>>)
    requires
        is_mock(prover),
    ensures
        proof_mode_for(prover) is Core,
{
}

/// No prover selects compressed proofs on their own, and of the modes that are selected the ones
/// that support verification are the ones whose proofs have a byte encoding.
pub proof fn law_selected_modes(prover: Option<Seq<char>>)
    ensures
        !(proof_mode_for(prover) is Compressed),
        proof_mode_for(prover).verifiable() <==> proof_mode_for(prover).has_plonk_bytes(),
{
}

/// Every mode whose proofs have a byte encoding supports verification.
pub proof fn law_plonk_bytes_are_verifiable(mode: SyntheticProofMode)
    ensures
        mode.has_plonk_bytes() ==> mode.verifiable(),
{
}

/// The name of the prover decides on the proofs: `mock` and `light`, and no others, stand for core
/// proofs, and all else stands for Plonk proofs; `mock` alone is the mock prover.
pub proof fn law_provers_decide_on_proofs(prover: Option<Seq<char>>)
    ensures
        proof_mode_for(prover) is Core <==> (prover matches Some(name) && (name == "mock"@ || name
            == "light"@)),
        proof_mode_for(prover) is Plonk <==> !(proof_mode_for(prover) is Core),
        is_mock(prover) <==> (prover matches Some(name) && name == "mock"@),
{
}

/// Which proofs can be checked and encoded: all but core proofs are checked by the prover client,
/// and Plonk proofs alone have a byte encoding.
pub proof fn law_abilities_of_proofs(mode: SyntheticProofMode)
    ensures
        mode.verifiable() <==> !(mode is Core),
        mode.has_plonk_bytes() <==> mode is Plonk,
{
}

} // verus!
