//! The synthetic update chain, as the consensus client takes it and as the proof inputs carry it.
//!
//! The fork schedule, the updates and most of the store are never looked into here, so the types
//! are generic in them: `F` is the fork schedule, `X` the rest of the store, `U` an update.

use vstd::prelude::*;

use crate::light_client::{repeat_byte, LightClientStore};
use crate::mode::{
    client_mode, convert_mode, restore_mode, synthetic_mode, BenchmarkMode, ConsensusPreset,
    SyntheticBenchmarkMode,
};

verus! {

/// An update and the slot at which the consensus client applies it.
pub struct BenchmarkStep<U> {
    pub current_slot: u64,
    pub update: U,
}

/// The input of the consensus client's update benchmark.
pub struct BenchmarkFixture<F, X, U> {
    pub mode: BenchmarkMode,
    pub genesis_root: [u8; 32],
    pub forks: F,
    pub store: LightClientStore<X>,
    pub steps: Vec<BenchmarkStep<U>>,
}

/// A step as the proof inputs carry it.
pub struct SyntheticBenchmarkStep<U> {
    pub current_slot: u64,
    pub update: U,
}

/// A fixture as the proof inputs carry it.
pub struct SyntheticBenchmarkFixture<F, X, U> {
    pub mode: SyntheticBenchmarkMode,
    pub genesis_root: [u8; 32],
    pub forks: F,
    pub store: LightClientStore<X>,
    pub steps: Vec<SyntheticBenchmarkStep<U>>,
}

/// The input of the proven program: a fixture for one of the presets.
pub enum SyntheticProofInputs<F, X, U> {
    MinimalStrict(SyntheticBenchmarkFixture<F, X, U>),
    MainnetStrict(SyntheticBenchmarkFixture<F, X, U>),
    MinimalSimplified(SyntheticBenchmarkFixture<F, X, U>),
    MainnetSimplified(SyntheticBenchmarkFixture<F, X, U>),
}

/// A fixture with its mode of type `M`, and with its steps as pairs of a slot and an update.
#[verifier::ext_equal]
pub struct FixtureView<M, F, X, U> {
    pub mode: M,
    pub genesis_root: [u8; 32],
    pub forks: F,
    pub store: LightClientStore<X>,
    pub steps: Seq<(u64, U)>,
}

impl<F, X, U> View for BenchmarkFixture<F, X, U> {
    type V = FixtureView<BenchmarkMode, F, X, U>;

    open spec fn view(&self) -> FixtureView<BenchmarkMode, F, X, U> {
        FixtureView {
            mode: self.mode,
            genesis_root: self.genesis_root,
            forks: self.forks,
            store: self.store,
            steps: self.steps@.map_values(|s: BenchmarkStep<U>| (s.current_slot, s.update)),
        }
    }
}

impl<F, X, U> View for SyntheticBenchmarkFixture<F, X, U> {
    type V = FixtureView<SyntheticBenchmarkMode, F, X, U>;

    open spec fn view(&self) -> FixtureView<SyntheticBenchmarkMode, F, X, U> {
        FixtureView {
            mode: self.mode,
            genesis_root: self.genesis_root,
            forks: self.forks,
            store: self.store,
            steps: self.steps@.map_values(|s: SyntheticBenchmarkStep<U>| (s.current_slot, s.update)),
        }
    }
}

/// The fixture that the proof inputs carry for one of the consensus client.
pub open spec fn packed<F, X, U>(fixture: FixtureView<BenchmarkMode, F, X, U>) -> FixtureView<
    SyntheticBenchmarkMode,
    F,
    X,
    U,
> {
    FixtureView {
        mode: synthetic_mode(fixture.mode),
        genesis_root: fixture.genesis_root,
        forks: fixture.forks,
        store: fixture.store,
        steps: fixture.steps,
    }
}

/// The fixture of the consensus client that the proof inputs stand for.
pub open spec fn unpacked<F, X, U>(
    fixture: FixtureView<SyntheticBenchmarkMode, F, X, U>,
) -> FixtureView<BenchmarkMode, F, X, U> {
    FixtureView {
        mode: client_mode(fixture.mode),
        genesis_root: fixture.genesis_root,
        forks: fixture.forks,
        store: fixture.store,
        steps: fixture.steps,
    }
}

impl<F, X, U> SyntheticProofInputs<F, X, U> {
    /// The preset that the inputs are made for.
    pub open spec fn preset(self) -> ConsensusPreset {
        match self {
            SyntheticProofInputs::MinimalStrict(_) => ConsensusPreset::Minimal,
            SyntheticProofInputs::MainnetStrict(_) => ConsensusPreset::Mainnet,
            SyntheticProofInputs::MinimalSimplified(_) => ConsensusPreset::SimplifiedMinimal,
            SyntheticProofInputs::MainnetSimplified(_) => ConsensusPreset::SimplifiedMainnet,
        }
    }

    /// The fixture that the inputs carry.
    pub open spec fn fixture(self) -> SyntheticBenchmarkFixture<F, X, U> {
        match self {
            SyntheticProofInputs::MinimalStrict(fixture) => fixture,
            SyntheticProofInputs::MainnetStrict(fixture) => fixture,
            SyntheticProofInputs::MinimalSimplified(fixture) => fixture,
            SyntheticProofInputs::MainnetSimplified(fixture) => fixture,
        }
    }
}

/// Packs a fixture for a preset into proof inputs.
pub fn wrap_input<F, X, U>(preset: ConsensusPreset, fixture: BenchmarkFixture<F, X, U>) -> (inputs:
    SyntheticProofInputs<F, X, U>)
    ensures
        inputs.preset() == preset,
        inputs.fixture()@ == packed(fixture@),
        preset is Minimal <==> inputs is MinimalStrict,
        preset is Mainnet <==> inputs is MainnetStrict,
        preset is SimplifiedMinimal <==> inputs is MinimalSimplified,
        preset is SimplifiedMainnet <==> inputs is MainnetSimplified,
        inputs.fixture().mode is Strict <==> fixture.mode is Strict,
        inputs.fixture().genesis_root == fixture.genesis_root,
        inputs.fixture().forks == fixture.forks,
        inputs.fixture().store == fixture.store,
        inputs.fixture().steps@.len() == fixture.steps@.len(),
        forall|i: int|
            #![trigger inputs.fixture().steps@[i]]
            #![trigger fixture.steps@[i]]
            0 <= i < fixture.steps@.len() ==> inputs.fixture().steps@[i].current_slot
                == fixture.steps@[i].current_slot && inputs.fixture().steps@[i].update
                == fixture.steps@[i].update,
{
    let mut steps: Vec<SyntheticBenchmarkStep<U>> = Vec::new();
    for step in iter: fixture.steps
        invariant
            steps@.len() == iter.index(),
            forall|i: int|
                0 <= i < iter.index() ==> (#[trigger] steps@[i]).current_slot
                    == iter.seq()[i].current_slot && steps@[i].update == iter.seq()[i].update,
    {
        steps.push(
            SyntheticBenchmarkStep { current_slot: step.current_slot, update: step.update },
        );
    }
    let packed_fixture = SyntheticBenchmarkFixture {
        mode: convert_mode(fixture.mode),
        genesis_root: fixture.genesis_root,
        forks: fixture.forks,
        store: fixture.store,
        steps,
    };
    assert(packed_fixture@ =~= packed(fixture@));
    match preset {
        ConsensusPreset::Minimal => SyntheticProofInputs::MinimalStrict(packed_fixture),
        ConsensusPreset::Mainnet => SyntheticProofInputs::MainnetStrict(packed_fixture),
        ConsensusPreset::SimplifiedMinimal => SyntheticProofInputs::MinimalSimplified(
            packed_fixture,
        ),
        ConsensusPreset::SimplifiedMainnet => SyntheticProofInputs::MainnetSimplified(
            packed_fixture,
        ),
    }
}

/// Unpacks a fixture from the proof inputs for the consensus client.
pub fn restore_fixture<F, X, U>(fixture: SyntheticBenchmarkFixture<F, X, U>) -> (restored:
    BenchmarkFixture<F, X, U>)
    ensures
        restored@ == unpacked(fixture@),
        restored.mode is Strict <==> fixture.mode is Strict,
        restored.genesis_root == fixture.genesis_root,
        restored.forks == fixture.forks,
        restored.store == fixture.store,
        restored.steps@.len() == fixture.steps@.len(),
        forall|i: int|
            #![trigger restored.steps@[i]]
            #![trigger fixture.steps@[i]]
            0 <= i < fixture.steps@.len() ==> restored.steps@[i].current_slot
                == fixture.steps@[i].current_slot && restored.steps@[i].update
                == fixture.steps@[i].update,
{
    let mut steps: Vec<BenchmarkStep<U>> = Vec::new();
    for step in iter: fixture.steps
        invariant
            steps@.len() == iter.index(),
            forall|i: int|
                0 <= i < iter.index() ==> (#[trigger] steps@[i]).current_slot
                    == iter.seq()[i].current_slot && steps@[i].update == iter.seq()[i].update,
    {
        steps.push(BenchmarkStep { current_slot: step.current_slot, update: step.update });
    }
    let restored = BenchmarkFixture {
        mode: restore_mode(fixture.mode),
        genesis_root: fixture.genesis_root,
        forks: fixture.forks,
        store: fixture.store,
        steps,
    };
    assert(restored@ =~= unpacked(fixture@));
    restored
}

/// Takes proof inputs apart into the preset they are made for and the fixture they carry.
pub fn unwrap_input<F, X, U>(inputs: SyntheticProofInputs<F, X, U>) -> (opened: (
    ConsensusPreset,
    SyntheticBenchmarkFixture<F, X, U>,
))
    ensures
        opened == (inputs.preset(), inputs.fixture()),
        inputs == (match opened.0 {
            ConsensusPreset::Minimal => SyntheticProofInputs::MinimalStrict(opened.1),
            ConsensusPreset::Mainnet => SyntheticProofInputs::MainnetStrict(opened.1),
            ConsensusPreset::SimplifiedMinimal => SyntheticProofInputs::MinimalSimplified(opened.1),
            ConsensusPreset::SimplifiedMainnet => SyntheticProofInputs::MainnetSimplified(opened.1),
        }),
{
    match inputs {
        SyntheticProofInputs::MinimalStrict(fixture) => (ConsensusPreset::Minimal, fixture),
        SyntheticProofInputs::MainnetStrict(fixture) => (ConsensusPreset::Mainnet, fixture),
        SyntheticProofInputs::MinimalSimplified(fixture) => (
            ConsensusPreset::SimplifiedMinimal,
            fixture,
        ),
        SyntheticProofInputs::MainnetSimplified(fixture) => (
            ConsensusPreset::SimplifiedMainnet,
            fixture,
        ),
    }
}

/// What a fixture is generated from. The fork schedule is the consensus client's own default.
#[derive(Clone, Copy, Debug, PartialEq, Eq)]
pub struct SyntheticFixtureConfig {
    pub mode: BenchmarkMode,
    pub initial_slot: u64,
    pub committee_transitions: usize,
    pub signers_per_update: usize,
    pub genesis_root: [u8; 32],
}

/// The byte that the synthetic genesis root is made of.
pub const GENESIS_BYTE: u8 = 7;

/// Whether a configuration asks for the given chain, on the synthetic genesis root.
pub open spec fn configures(
    config: SyntheticFixtureConfig,
    mode: BenchmarkMode,
    initial_slot: u64,
    committee_transitions: usize,
    signers_per_update: usize,
) -> bool {
    &&& config.mode == mode
    &&& config.initial_slot == initial_slot
    &&& config.committee_transitions == committee_transitions
    &&& config.signers_per_update == signers_per_update
    &&& config.genesis_root@ == Seq::new(32, |i: int| GENESIS_BYTE)
}

/// The configuration of a synthetic chain.
pub fn fixture_config(
    mode: BenchmarkMode,
    initial_slot: u64,
    committee_transitions: usize,
    signers_per_update: usize,
) -> (config: SyntheticFixtureConfig)
    ensures
        configures(config, mode, initial_slot, committee_transitions, signers_per_update),
        config.mode == mode,
        config.initial_slot == initial_slot,
        config.committee_transitions == committee_transitions,
        config.signers_per_update == signers_per_update,
        forall|i: int| 0 <= i < 32 ==> #[trigger] config.genesis_root@[i] == 7,
{
    SyntheticFixtureConfig {
        mode,
        initial_slot,
        committee_transitions,
        signers_per_update,
        genesis_root: repeat_byte(GENESIS_BYTE),
    }
}

/// The proven program replays the very chain that was generated: unpacking what was packed gives
/// the fixture back, mode, store and steps in order, and packing what was unpacked likewise.
pub proof fn law_packing_round_trip<F, X, U>(
    fixture: FixtureView<BenchmarkMode, F, X, U>,
    carried: FixtureView<SyntheticBenchmarkMode, F, X, U>,
)
    ensures
        unpacked(packed(fixture)) == fixture,
        packed(unpacked(carried)) == carried,
{
}

/// Packing a fixture keeps everything in it: the mode stays what it is, and the genesis root, the
/// forks, the store and the steps, each with its slot and its update in its place, are carried over.
/// So does unpacking.
pub proof fn law_packing_keeps_everything<F, X, U>(
    fixture: BenchmarkFixture<F, X, U>,
    carried: SyntheticBenchmarkFixture<F, X, U>,
)
    requires
        carried@ == packed(fixture@) || fixture@ == unpacked(carried@),
    ensures
        carried.mode is Strict <==> fixture.mode is Strict,
        carried.genesis_root == fixture.genesis_root,
        carried.forks == fixture.forks,
        carried.store == fixture.store,
        carried.steps@.len() == fixture.steps@.len(),
        forall|i: int|
            #![trigger carried.steps@[i]]
            #![trigger fixture.steps@[i]]
            0 <= i < fixture.steps@.len() ==> carried.steps@[i].current_slot
                == fixture.steps@[i].current_slot && carried.steps@[i].update
                == fixture.steps@[i].update,
{
    assert(carried@.mode == synthetic_mode(fixture@.mode));
    assert(carried@.store == fixture@.store);
    assert(carried@.forks == fixture@.forks);
    assert(carried@.genesis_root == fixture@.genesis_root);
    assert(carried@.steps == fixture@.steps);
    assert(carried@.steps.len() == fixture@.steps.len());
    assert forall|i: int| 0 <= i < fixture.steps@.len() implies
        #[trigger] carried.steps@[i].current_slot == fixture.steps@[i].current_slot
        && carried.steps@[i].update == fixture.steps@[i].update by {
        assert(carried@.steps[i] == fixture@.steps[i]);
    }
}

/// Proof inputs are told apart by the preset that they are made for, and each holds its fixture.
pub proof fn law_inputs_hold_their_fixture<F, X, U>(fixture: SyntheticBenchmarkFixture<F, X, U>)
    ensures
        ({
            let inputs = SyntheticProofInputs::MinimalStrict(fixture);
            inputs.preset() is Minimal && inputs.fixture() == fixture
        }),
        ({
            let inputs = SyntheticProofInputs::MainnetStrict(fixture);
            inputs.preset() is Mainnet && inputs.fixture() == fixture
        }),
        ({
            let inputs = SyntheticProofInputs::MinimalSimplified(fixture);
            inputs.preset() is SimplifiedMinimal && inputs.fixture() == fixture
        }),
        ({
            let inputs = SyntheticProofInputs::MainnetSimplified(fixture);
            inputs.preset() is SimplifiedMainnet && inputs.fixture() == fixture
        }),
{
}

} // verus!
