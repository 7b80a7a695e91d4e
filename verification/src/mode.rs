//! Which light-client rules a run measures: the nominal spec, the mode, and the consensus preset
//! that the two select together.

use vstd::prelude::*;

use crate::text::same_text;

verus! {

/// How strictly the consensus client checks the updates it replays.
#[derive(Clone, Copy, Debug, PartialEq, Eq, Structural)]
pub enum BenchmarkMode {
    Strict,
    Simplified,
}

/// The mode as the proof inputs and outputs carry it.
#[derive(Clone, Copy, Debug, PartialEq, Eq, Structural)]
pub enum SyntheticBenchmarkMode {
    Strict,
    Simplified,
}

/// The nominal spec as the proof outputs carry it.
#[derive(Clone, Copy, Debug, PartialEq, Eq, Structural)]
pub enum SyntheticBenchmarkSpec {
    Minimal,
    Mainnet,
}

/// The consensus presets that the benchmark can run.
#[derive(Clone, Copy, Debug, PartialEq, Eq, Structural)]
pub enum ConsensusPreset {
    Minimal,
    SimplifiedMinimal,
    Mainnet,
    SimplifiedMainnet,
}

/// The name of a mode on the command line and in the report.
pub open spec fn mode_name(mode: BenchmarkMode) -> Seq<char> {
    match mode {
        BenchmarkMode::Strict => "strict"@,
        BenchmarkMode::Simplified => "simplified"@,
    }
}

/// The mode of a given name, if there is one.
pub open spec fn named_mode(name: Seq<char>) -> Option<BenchmarkMode> {
    if name == "strict"@ {
        Some(BenchmarkMode::Strict)
    } else if name == "simplified"@ {
        Some(BenchmarkMode::Simplified)
    } else {
        None
    }
}

/// The name of a spec on the command line and in the report.
pub open spec fn spec_name(spec: SyntheticBenchmarkSpec) -> Seq<char> {
    match spec {
        SyntheticBenchmarkSpec::Minimal => "minimal"@,
        SyntheticBenchmarkSpec::Mainnet => "mainnet"@,
    }
}

/// The spec of a given name, if there is one.
pub open spec fn named_spec(name: Seq<char>) -> Option<SyntheticBenchmarkSpec> {
    if name == "minimal"@ {
        Some(SyntheticBenchmarkSpec::Minimal)
    } else if name == "mainnet"@ {
        Some(SyntheticBenchmarkSpec::Mainnet)
    } else {
        None
    }
}

/// The mode of the same name in the proof inputs and outputs.
pub open spec fn synthetic_mode(mode: BenchmarkMode) -> SyntheticBenchmarkMode {
    match mode {
        BenchmarkMode::Strict => SyntheticBenchmarkMode::Strict,
        BenchmarkMode::Simplified => SyntheticBenchmarkMode::Simplified,
    }
}

/// The mode of the consensus client that a mode in the proof inputs stands for.
pub open spec fn client_mode(mode: SyntheticBenchmarkMode) -> BenchmarkMode {
    match mode {
        SyntheticBenchmarkMode::Strict => BenchmarkMode::Strict,
        SyntheticBenchmarkMode::Simplified => BenchmarkMode::Simplified,
    }
}

/// The preset for a nominal spec and a mode.
pub open spec fn preset_for(spec: SyntheticBenchmarkSpec, mode: BenchmarkMode) -> ConsensusPreset {
    match (spec, mode) {
        (SyntheticBenchmarkSpec::Minimal, BenchmarkMode::Strict) => ConsensusPreset::Minimal,
        (SyntheticBenchmarkSpec::Minimal, BenchmarkMode::Simplified) =>
            ConsensusPreset::SimplifiedMinimal,
        (SyntheticBenchmarkSpec::Mainnet, BenchmarkMode::Strict) => ConsensusPreset::Mainnet,
        (SyntheticBenchmarkSpec::Mainnet, BenchmarkMode::Simplified) =>
            ConsensusPreset::SimplifiedMainnet,
    }
}

impl ConsensusPreset {
    /// The nominal spec of a preset.
    pub open spec fn nominal(self) -> SyntheticBenchmarkSpec {
        match self {
            ConsensusPreset::Minimal => SyntheticBenchmarkSpec::Minimal,
            ConsensusPreset::SimplifiedMinimal => SyntheticBenchmarkSpec::Minimal,
            ConsensusPreset::Mainnet => SyntheticBenchmarkSpec::Mainnet,
            ConsensusPreset::SimplifiedMainnet => SyntheticBenchmarkSpec::Mainnet,
        }
    }

    /// The mode that a preset is run in.
    pub open spec fn run_mode(self) -> BenchmarkMode {
        match self {
            ConsensusPreset::Minimal => BenchmarkMode::Strict,
            ConsensusPreset::SimplifiedMinimal => BenchmarkMode::Simplified,
            ConsensusPreset::Mainnet => BenchmarkMode::Strict,
            ConsensusPreset::SimplifiedMainnet => BenchmarkMode::Simplified,
        }
    }

    /// The nominal spec that the proof outputs name for this preset.
    pub fn nominal_spec(self) -> (spec: SyntheticBenchmarkSpec)
        ensures
            spec == self.nominal(),
            spec is Minimal <==> self is Minimal || self is SimplifiedMinimal,
    {
        match self {
            ConsensusPreset::Minimal => SyntheticBenchmarkSpec::Minimal,
            ConsensusPreset::SimplifiedMinimal => SyntheticBenchmarkSpec::Minimal,
            ConsensusPreset::Mainnet => SyntheticBenchmarkSpec::Mainnet,
            ConsensusPreset::SimplifiedMainnet => SyntheticBenchmarkSpec::Mainnet,
        }
    }

    /// The mode that this preset is run in.
    pub fn mode(self) -> (mode: BenchmarkMode)
        ensures
            mode == self.run_mode(),
            mode is Simplified <==> self is SimplifiedMinimal || self is SimplifiedMainnet,
    {
        match self {
            ConsensusPreset::Minimal => BenchmarkMode::Strict,
            ConsensusPreset::SimplifiedMinimal => BenchmarkMode::Simplified,
            ConsensusPreset::Mainnet => BenchmarkMode::Strict,
            ConsensusPreset::SimplifiedMainnet => BenchmarkMode::Simplified,
        }
    }
}

/// The mode of a given name, if there is one.
pub fn mode_from_name(name: &str) -> (mode: Option<BenchmarkMode>)
    ensures
        mode == named_mode(name@),
        mode == Some(BenchmarkMode::Strict) <==> name@ == "strict"@,
        mode == Some(BenchmarkMode::Simplified) <==> name@ == "simplified"@,
{
    proof {
        law_mode_names(BenchmarkMode::Strict, name@);
        law_mode_names(BenchmarkMode::Simplified, name@);
    }
    if same_text(name, "strict") {
        Some(BenchmarkMode::Strict)
    } else if same_text(name, "simplified") {
        Some(BenchmarkMode::Simplified)
    } else {
        None
    }
}

/// Parses a mode that is known to be one of `strict` and `simplified`.
pub fn parse_mode(mode: &str) -> (parsed: BenchmarkMode)
    requires
        mode@ == "strict"@ || mode@ == "simplified"@,
    ensures
        Some(parsed) == named_mode(mode@),
        parsed is Strict <==> mode@ == "strict"@,
        parsed is Simplified <==> mode@ == "simplified"@,
{
    proof {
        law_mode_names(BenchmarkMode::Strict, mode@);
        law_mode_names(BenchmarkMode::Simplified, mode@);
    }
    if same_text(mode, "strict") {
        BenchmarkMode::Strict
    } else {
        BenchmarkMode::Simplified
    }
}

/// The name of a mode.
pub fn mode_label(mode: BenchmarkMode) -> (label: &'static str)
    ensures
        label@ == mode_name(mode),
        mode is Strict ==> label@ == "strict"@,
        mode is Simplified ==> label@ == "simplified"@,
{
    match mode {
        BenchmarkMode::Strict => "strict",
        BenchmarkMode::Simplified => "simplified",
    }
}

/// The name of a spec.
pub fn spec_label(spec: SyntheticBenchmarkSpec) -> (label: &'static str)
    ensures
        label@ == spec_name(spec),
        spec is Minimal ==> label@ == "minimal"@,
        spec is Mainnet ==> label@ == "mainnet"@,
{
    match spec {
        SyntheticBenchmarkSpec::Minimal => "minimal",
        SyntheticBenchmarkSpec::Mainnet => "mainnet",
    }
}

/// Turns the mode of the consensus client into that of the proof inputs and outputs.
pub fn convert_mode(mode: BenchmarkMode) -> (converted: SyntheticBenchmarkMode)
    ensures
        converted == synthetic_mode(mode),
        converted is Strict <==> mode is Strict,
{
    match mode {
        BenchmarkMode::Strict => SyntheticBenchmarkMode::Strict,
        BenchmarkMode::Simplified => SyntheticBenchmarkMode::Simplified,
    }
}

/// Turns the mode of the proof inputs back into that of the consensus client.
pub fn restore_mode(mode: SyntheticBenchmarkMode) -> (restored: BenchmarkMode)
    ensures
        restored == client_mode(mode),
        restored is Strict <==> mode is Strict,
{
    match mode {
        SyntheticBenchmarkMode::Strict => BenchmarkMode::Strict,
        SyntheticBenchmarkMode::Simplified => BenchmarkMode::Simplified,
    }
}

/// The preset that a spec name and a mode select; a name other than `minimal` and `mainnet`
/// selects none.
pub fn select_preset(name: &str, mode: BenchmarkMode) -> (preset: Option<ConsensusPreset>)
    ensures
        preset == match named_spec(name@) {
            Some(spec) => Some(preset_for(spec, mode)),
            None => None,
        },
        preset == Some(ConsensusPreset::Minimal) <==> name@ == "minimal"@ && mode is Strict,
        preset == Some(ConsensusPreset::SimplifiedMinimal) <==> name@ == "minimal"@
            && mode is Simplified,
        preset == Some(ConsensusPreset::Mainnet) <==> name@ == "mainnet"@ && mode is Strict,
        preset == Some(ConsensusPreset::SimplifiedMainnet) <==> name@ == "mainnet"@
            && mode is Simplified,
{
    proof {
        law_spec_names(SyntheticBenchmarkSpec::Minimal, name@);
        law_spec_names(SyntheticBenchmarkSpec::Mainnet, name@);
    }
    if same_text(name, "minimal") {
        match mode {
            BenchmarkMode::Strict => Some(ConsensusPreset::Minimal),
            BenchmarkMode::Simplified => Some(ConsensusPreset::SimplifiedMinimal),
        }
    } else if same_text(name, "mainnet") {
        match mode {
            BenchmarkMode::Strict => Some(ConsensusPreset::Mainnet),
            BenchmarkMode::Simplified => Some(ConsensusPreset::SimplifiedMainnet),
        }
    } else {
        None
    }
}

/// A mode is parsed back from its own name, and only from that.
pub proof fn law_mode_names(mode: BenchmarkMode, name: Seq<char>)
    ensures
        named_mode(name) == Some(mode) <==> name == mode_name(mode),
{
    reveal_strlit("strict");
    reveal_strlit("simplified");
    assert("strict"@.len() != "simplified"@.len());
}

/// A spec is found under its own name, and only under that.
pub proof fn law_spec_names(spec: SyntheticBenchmarkSpec, name: Seq<char>)
    ensures
        named_spec(name) == Some(spec) <==> name == spec_name(spec),
{
    reveal_strlit("minimal");
    reveal_strlit("mainnet");
    assert("minimal"@[1] != "mainnet"@[1]);
}

/// The two mode conversions undo each other.
pub proof fn law_mode_conversions_are_inverse(mode: BenchmarkMode, synthetic: SyntheticBenchmarkMode)
    ensures
        client_mode(synthetic_mode(mode)) == mode,
        synthetic_mode(client_mode(synthetic)) == synthetic,
{
}

/// Presets are exactly the pairs of a nominal spec and a mode.
pub proof fn law_preset_is_spec_and_mode(
    preset: ConsensusPreset,
    spec: SyntheticBenchmarkSpec,
    mode: BenchmarkMode,
)
    ensures
        preset_for(spec, mode) == preset <==> preset.nominal() == spec && preset.run_mode() == mode,
{
}

/// Names mean what they say: `strict` and `simplified` are the strict and the simplified mode,
/// `minimal` and `mainnet` the minimal and the mainnet spec, and nothing else names any of them.
pub proof fn law_names_mean_what_they_say(name: Seq<char>)
    ensures
        named_mode(name) == Some(BenchmarkMode::Strict) <==> name == "strict"@,
        named_mode(name) == Some(BenchmarkMode::Simplified) <==> name == "simplified"@,
        named_spec(name) == Some(SyntheticBenchmarkSpec::Minimal) <==> name == "minimal"@,
        named_spec(name) == Some(SyntheticBenchmarkSpec::Mainnet) <==> name == "mainnet"@,
        "strict"@ != "simplified"@,
        "minimal"@ != "mainnet"@,
{
    law_mode_names(BenchmarkMode::Strict, name);
    law_mode_names(BenchmarkMode::Simplified, name);
    law_spec_names(SyntheticBenchmarkSpec::Minimal, name);
    law_spec_names(SyntheticBenchmarkSpec::Mainnet, name);
    law_spec_names(SyntheticBenchmarkSpec::Minimal, "mainnet"@);
    law_mode_names(BenchmarkMode::Strict, "simplified"@);
    reveal_strlit("strict");
    reveal_strlit("simplified");
    reveal_strlit("minimal");
    reveal_strlit("mainnet");
    assert("strict"@.len() != "simplified"@.len());
    assert("minimal"@[1] != "mainnet"@[1]);
}

/// A mode stays the same mode in the proof inputs and on the way back: strict stays strict, and
/// simplified stays simplified.
pub proof fn law_modes_are_kept(mode: BenchmarkMode, synthetic: SyntheticBenchmarkMode)
    ensures
        synthetic_mode(mode) is Strict <==> mode is Strict,
        synthetic_mode(mode) is Simplified <==> mode is Simplified,
        client_mode(synthetic) is Strict <==> synthetic is Strict,
        client_mode(synthetic) is Simplified <==> synthetic is Simplified,
{
}

/// A preset says by itself which spec and which mode it is for.
pub proof fn law_presets_are_what_they_are_called(preset: ConsensusPreset)
    ensures
        preset.nominal() is Minimal <==> preset is Minimal || preset is SimplifiedMinimal,
        preset.nominal() is Mainnet <==> preset is Mainnet || preset is SimplifiedMainnet,
        preset.run_mode() is Strict <==> preset is Minimal || preset is Mainnet,
        preset.run_mode() is Simplified <==> preset is SimplifiedMinimal
            || preset is SimplifiedMainnet,
{
}

} // verus!
