//! What a replay of the synthetic update chain commits to.
//!
//! The proven program and the host compute the same outputs from their own replay of the chain;
//! the host compares the two before it reports anything.

use vstd::prelude::*;

use crate::fixture::{
    packed, restore_fixture, unpacked, unwrap_input, BenchmarkFixture, SyntheticProofInputs,
};
use crate::light_client::{LightClientStore, StoreRoots, StoreRootsView};
use crate::mode::{
    convert_mode, synthetic_mode, BenchmarkMode, ConsensusPreset, SyntheticBenchmarkMode,
    SyntheticBenchmarkSpec,
};

verus! {

/// The public outputs of the proven program.
#[derive(Clone, Copy, Debug, PartialEq, Eq)]
pub struct SyntheticProofOutputs {
    pub mode: SyntheticBenchmarkMode,
    pub spec: SyntheticBenchmarkSpec,
    pub updates_processed: u64,
    pub prev_header: [u8; 32],
    pub prev_head: u64,
    pub prev_sync_committee_hash: [u8; 32],
    pub new_header: [u8; 32],
    pub new_head: u64,
    pub sync_committee_hash: [u8; 32],
    pub next_sync_committee_hash: [u8; 32],
}

/// The public outputs with their roots as sequences of bytes.
#[verifier::ext_equal]
pub struct OutputsView {
    pub mode: SyntheticBenchmarkMode,
    pub spec: SyntheticBenchmarkSpec,
    pub updates_processed: u64,
    pub prev_header: Seq<u8>,
    pub prev_head: u64,
    pub prev_sync_committee_hash: Seq<u8>,
    pub new_header: Seq<u8>,
    pub new_head: u64,
    pub sync_committee_hash: Seq<u8>,
    pub next_sync_committee_hash: Seq<u8>,
}

impl View for SyntheticProofOutputs {
    type V = OutputsView;

    open spec fn view(&self) -> OutputsView {
        OutputsView {
            mode: self.mode,
            spec: self.spec,
            updates_processed: self.updates_processed,
            prev_header: self.prev_header@,
            prev_head: self.prev_head,
            prev_sync_committee_hash: self.prev_sync_committee_hash@,
            new_header: self.new_header@,
            new_head: self.new_head,
            sync_committee_hash: self.sync_committee_hash@,
            next_sync_committee_hash: self.next_sync_committee_hash@,
        }
    }
}

/// The root that stands for a committee that is not known.
pub open spec fn zero_root() -> Seq<u8> {
    Seq::new(32, |i: int| 0u8)
}

/// The outputs of a replay that takes a store from `before` to `after`.
pub open spec fn outputs_of(
    spec: SyntheticBenchmarkSpec,
    mode: SyntheticBenchmarkMode,
    updates_processed: u64,
    before: StoreRootsView,
    after: StoreRootsView,
) -> OutputsView {
    OutputsView {
        mode,
        spec,
        updates_processed,
        prev_header: before.header,
        prev_head: before.head,
        prev_sync_committee_hash: before.sync_committee,
        new_header: after.header,
        new_head: after.head,
        sync_committee_hash: after.sync_committee,
        next_sync_committee_hash: match after.next_sync_committee {
            Some(root) => root,
            None => zero_root(),
        },
    }
}

/// Puts the outputs together from the roots before and after a replay.
pub fn outputs_from_roots(
    spec: SyntheticBenchmarkSpec,
    mode: SyntheticBenchmarkMode,
    updates_processed: u64,
    before: &StoreRoots,
    after: &StoreRoots,
) -> (outputs: SyntheticProofOutputs)
    ensures
        outputs@ == outputs_of(spec, mode, updates_processed, before@, after@),
        outputs.mode == mode,
        outputs.spec == spec,
        outputs.updates_processed == updates_processed,
        outputs.prev_header == before.header,
        outputs.prev_head == before.head,
        outputs.prev_sync_committee_hash == before.sync_committee,
        outputs.new_header == after.header,
        outputs.new_head == after.head,
        outputs.sync_committee_hash == after.sync_committee,
        match after.next_sync_committee {
            Some(root) => outputs.next_sync_committee_hash == root,
            None => forall|i: int|
                0 <= i < 32 ==> #[trigger] outputs.next_sync_committee_hash@[i] == 0,
        },
{
    let next_sync_committee_hash: [u8; 32] = match after.next_sync_committee {
        Some(root) => root,
        None => {
            let zero: [u8; 32] = [0u8; 32];
            assert(zero@ =~= zero_root());
            zero
        },
    };
    SyntheticProofOutputs {
        mode,
        spec,
        updates_processed,
        prev_header: before.header,
        prev_head: before.head,
        prev_sync_committee_hash: before.sync_committee,
        new_header: after.header,
        new_head: after.head,
        sync_committee_hash: after.sync_committee,
        next_sync_committee_hash,
    }
}

/// What the consensus client's update benchmark returns: how many updates it applied and the store
/// it ended with.
pub struct BenchmarkRun<X> {
    pub updates_processed: u64,
    pub store: LightClientStore<X>,
}

/// Computes the outputs that the proven program has to commit to, from a native run over the
/// fixture.
pub fn expected_outputs<F, X, U, Y>(
    spec: SyntheticBenchmarkSpec,
    mode: BenchmarkMode,
    fixture: &BenchmarkFixture<F, X, U>,
    run: &BenchmarkRun<Y>,
) -> (outputs: SyntheticProofOutputs)
    ensures
        outputs@ == outputs_of(
            spec,
            synthetic_mode(mode),
            run.updates_processed,
            fixture.store.committed(),
            run.store.committed(),
        ),
        outputs.mode is Strict <==> mode is Strict,
        outputs.spec == spec,
        outputs.updates_processed == run.updates_processed,
        outputs.prev_header@ == fixture.store.finalized_header.root(),
        outputs.prev_head == fixture.store.finalized_header.slot,
        outputs.prev_sync_committee_hash@ == fixture.store.current_sync_committee@.root(),
        outputs.new_header@ == run.store.finalized_header.root(),
        outputs.new_head == run.store.finalized_header.slot,
        outputs.sync_committee_hash@ == run.store.current_sync_committee@.root(),
        match run.store.next_sync_committee {
            Some(committee) => outputs.next_sync_committee_hash@ == committee@.root(),
            None => forall|i: int|
                0 <= i < 32 ==> #[trigger] outputs.next_sync_committee_hash@[i] == 0,
        },
{
    outputs_from_roots(
        spec,
        convert_mode(mode),
        run.updates_processed,
        &fixture.store.roots(),
        &run.store.roots(),
    )
}

/// What the proven program notes of its inputs before it replays the fixture they carry.
#[derive(Clone, Copy, Debug, PartialEq, Eq)]
pub struct ReplayTask {
    pub preset: ConsensusPreset,
    pub mode: SyntheticBenchmarkMode,
    pub before: StoreRoots,
}

impl ReplayTask {
    /// Whether this is what is noted of some inputs.
    pub open spec fn notes<F, X, U>(self, inputs: SyntheticProofInputs<F, X, U>) -> bool {
        &&& self.preset == inputs.preset()
        &&& self.mode == inputs.fixture().mode
        &&& self.before@ == inputs.fixture().store.committed()
    }

    /// The outputs that the program commits to after a run.
    pub open spec fn outputs<Y>(self, run: BenchmarkRun<Y>) -> OutputsView {
        outputs_of(
            self.preset.nominal(),
            self.mode,
            run.updates_processed,
            self.before@,
            run.store.committed(),
        )
    }

    /// Starts the proven program on its inputs, and hands out the fixture to replay.
    pub fn open<F, X, U>(inputs: SyntheticProofInputs<F, X, U>) -> (opened: (
        ReplayTask,
        BenchmarkFixture<F, X, U>,
    ))
        ensures
            opened.0.notes(inputs),
            opened.1@ == unpacked(inputs.fixture()@),
            opened.0.preset == inputs.preset(),
            opened.0.mode == inputs.fixture().mode,
            opened.0.before.head == inputs.fixture().store.finalized_header.slot,
            opened.0.before.header@ == inputs.fixture().store.finalized_header.root(),
            opened.0.before.sync_committee@
                == inputs.fixture().store.current_sync_committee@.root(),
            opened.1.mode is Strict <==> inputs.fixture().mode is Strict,
            opened.1.genesis_root == inputs.fixture().genesis_root,
            opened.1.forks == inputs.fixture().forks,
            opened.1.store == inputs.fixture().store,
            opened.1.steps@.len() == inputs.fixture().steps@.len(),
            forall|i: int|
                #![trigger opened.1.steps@[i]]
                #![trigger inputs.fixture().steps@[i]]
                0 <= i < opened.1.steps@.len() ==> opened.1.steps@[i].current_slot
                    == inputs.fixture().steps@[i].current_slot && opened.1.steps@[i].update
                    == inputs.fixture().steps@[i].update,
    {
        let (preset, carried) = unwrap_input(inputs);
        let task: ReplayTask = ReplayTask {
            preset,
            mode: carried.mode,
            before: carried.store.roots(),
        };
        (task, restore_fixture(carried))
    }

    /// Finishes the proven program once the fixture has been replayed.
    pub fn finish<Y>(self, run: &BenchmarkRun<Y>) -> (outputs: SyntheticProofOutputs)
        ensures
            outputs@ == self.outputs(*run),
            outputs.mode == self.mode,
            outputs.spec is Minimal <==> self.preset is Minimal || self.preset is SimplifiedMinimal,
            outputs.updates_processed == run.updates_processed,
            outputs.prev_header == self.before.header,
            outputs.prev_head == self.before.head,
            outputs.prev_sync_committee_hash == self.before.sync_committee,
            outputs.new_header@ == run.store.finalized_header.root(),
            outputs.new_head == run.store.finalized_header.slot,
            outputs.sync_committee_hash@ == run.store.current_sync_committee@.root(),
            match run.store.next_sync_committee {
                Some(committee) => outputs.next_sync_committee_hash@ == committee@.root(),
                None => forall|i: int|
                    0 <= i < 32 ==> #[trigger] outputs.next_sync_committee_hash@[i] == 0,
            },
    {
        outputs_from_roots(
            self.preset.nominal_spec(),
            self.mode,
            run.updates_processed,
            &self.before,
            &run.store.roots(),
        )
    }
}

/// Whether two roots are the same.
fn same_root(a: &[u8; 32], b: &[u8; 32]) -> (same: bool)
    ensures
        same == (a@ == b@),
{
    let mut i: usize = 0;
    while i < 32
        invariant
            i <= 32,
            forall|j: int| 0 <= j < i ==> a@[j] == b@[j],
        decreases 32 - i,
    {
        if a[i] != b[i] {
            return false;
        }
        i += 1;
    }
    assert(a@ =~= b@);
    true
}

impl SyntheticProofOutputs {
    /// Whether two outputs agree in every field.
    pub fn same(&self, other: &SyntheticProofOutputs) -> (same: bool)
        ensures
            same == (self@ == other@),
            same <==> {
                &&& self.mode == other.mode
                &&& self.spec == other.spec
                &&& self.updates_processed == other.updates_processed
                &&& self.prev_header@ == other.prev_header@
                &&& self.prev_head == other.prev_head
                &&& self.prev_sync_committee_hash@ == other.prev_sync_committee_hash@
                &&& self.new_header@ == other.new_header@
                &&& self.new_head == other.new_head
                &&& self.sync_committee_hash@ == other.sync_committee_hash@
                &&& self.next_sync_committee_hash@ == other.next_sync_committee_hash@
            },
    {
        self.mode == other.mode && self.spec == other.spec && self.updates_processed
            == other.updates_processed && same_root(&self.prev_header, &other.prev_header)
            && self.prev_head == other.prev_head && same_root(
            &self.prev_sync_committee_hash,
            &other.prev_sync_committee_hash,
        ) && same_root(&self.new_header, &other.new_header) && self.new_head == other.new_head
            && same_root(&self.sync_committee_hash, &other.sync_committee_hash) && same_root(
            &self.next_sync_committee_hash,
            &other.next_sync_committee_hash,
        )
    }
}

/// The proven program and the host agree: on inputs packed from a fixture the program replays that
/// fixture, and for the same run it commits to exactly the outputs that the host expects.
pub proof fn law_program_meets_expectation<F, X, U, Y>(
    preset: ConsensusPreset,
    fixture: BenchmarkFixture<F, X, U>,
    inputs: SyntheticProofInputs<F, X, U>,
    task: ReplayTask,
    run: BenchmarkRun<Y>,
)
    requires
        inputs.preset() == preset,
        inputs.fixture()@ == packed(fixture@),
        task.notes(inputs),
    ensures
        unpacked(inputs.fixture()@) == fixture@,
        task.outputs(run) == outputs_of(
            preset.nominal(),
            synthetic_mode(fixture.mode),
            run.updates_processed,
            fixture.store.committed(),
            run.store.committed(),
        ),
{
    assert(inputs.fixture()@.mode == packed(fixture@).mode);
    assert(inputs.fixture()@.store == fixture@.store);
    assert(unpacked(inputs.fixture()@) =~= fixture@);
}

/// The outputs of a replay tell of the replay: the head, the header and the committee before it are
/// those of the store it starts from, the head, the header and the committees after it those of the
/// store it ends with, and a next committee that is not known is told as 32 zero bytes.
pub proof fn law_outputs_tell_of_the_replay<X, Y>(
    spec: SyntheticBenchmarkSpec,
    mode: SyntheticBenchmarkMode,
    updates_processed: u64,
    before: LightClientStore<X>,
    after: LightClientStore<Y>,
)
    ensures
        ({
            let outputs = outputs_of(
                spec,
                mode,
                updates_processed,
                before.committed(),
                after.committed(),
            );
            &&& outputs.mode == mode
            &&& outputs.spec == spec
            &&& outputs.updates_processed == updates_processed
            &&& outputs.prev_header == before.finalized_header.root()
            &&& outputs.prev_head == before.finalized_header.slot
            &&& outputs.prev_sync_committee_hash == before.current_sync_committee@.root()
            &&& outputs.new_header == after.finalized_header.root()
            &&& outputs.new_head == after.finalized_header.slot
            &&& outputs.sync_committee_hash == after.current_sync_committee@.root()
            &&& match after.next_sync_committee {
                Some(committee) => outputs.next_sync_committee_hash == committee@.root(),
                None => outputs.next_sync_committee_hash.len() == 32 && forall|i: int|
                    0 <= i < 32 ==> #[trigger] outputs.next_sync_committee_hash[i] == 0,
            }
        }),
{
}

/// The mode and the spec do not touch the rest of the outputs: two replays between the same stores
/// that differ in the mode, the spec and the number of updates alone have outputs that differ in
/// these alone.
pub proof fn law_modes_do_not_touch_the_replay(
    spec_a: SyntheticBenchmarkSpec,
    mode_a: SyntheticBenchmarkMode,
    updates_a: u64,
    spec_b: SyntheticBenchmarkSpec,
    mode_b: SyntheticBenchmarkMode,
    updates_b: u64,
    before: StoreRootsView,
    after: StoreRootsView,
)
    ensures
        outputs_of(spec_b, mode_b, updates_b, before, after) == (OutputsView {
            mode: mode_b,
            spec: spec_b,
            updates_processed: updates_b,
            ..outputs_of(spec_a, mode_a, updates_a, before, after)
        }),
{
}

/// A replay that is followed by another hands its head, its header and its committee on to it.
pub proof fn law_replays_follow_on(
    spec: SyntheticBenchmarkSpec,
    mode: SyntheticBenchmarkMode,
    updates_a: u64,
    updates_b: u64,
    start: StoreRootsView,
    between: StoreRootsView,
    end: StoreRootsView,
)
    ensures
        ({
            let a = outputs_of(spec, mode, updates_a, start, between);
            let b = outputs_of(spec, mode, updates_b, between, end);
            &&& a.new_head == b.prev_head
            &&& a.new_header == b.prev_header
            &&& a.sync_committee_hash == b.prev_sync_committee_hash
        }),
{
}

/// What the proven program commits to for a run over packed inputs tells of that run: the mode is
/// that of the fixture, the spec that of the preset, and the heads, headers and committees are those
/// of the fixture's store before and of the run's store after.
pub proof fn law_program_tells_of_the_replay<F, X, U, Y>(
    preset: ConsensusPreset,
    fixture: BenchmarkFixture<F, X, U>,
    inputs: SyntheticProofInputs<F, X, U>,
    task: ReplayTask,
    run: BenchmarkRun<Y>,
)
    requires
        inputs.preset() == preset,
        inputs.fixture()@ == packed(fixture@),
        task.notes(inputs),
    ensures
        ({
            let outputs = task.outputs(run);
            &&& outputs.mode is Strict <==> fixture.mode is Strict
            &&& outputs.spec is Minimal <==> preset is Minimal || preset is SimplifiedMinimal
            &&& outputs.updates_processed == run.updates_processed
            &&& outputs.prev_header == fixture.store.finalized_header.root()
            &&& outputs.prev_head == fixture.store.finalized_header.slot
            &&& outputs.prev_sync_committee_hash == fixture.store.current_sync_committee@.root()
            &&& outputs.new_header == run.store.finalized_header.root()
            &&& outputs.new_head == run.store.finalized_header.slot
            &&& outputs.sync_committee_hash == run.store.current_sync_committee@.root()
            &&& match run.store.next_sync_committee {
                Some(committee) => outputs.next_sync_committee_hash == committee@.root(),
                None => outputs.next_sync_committee_hash.len() == 32 && forall|i: int|
                    0 <= i < 32 ==> #[trigger] outputs.next_sync_committee_hash[i] == 0,
            }
        }),
{
    law_program_meets_expectation(preset, fixture, inputs, task, run);
    law_outputs_tell_of_the_replay(
        preset.nominal(),
        synthetic_mode(fixture.mode),
        run.updates_processed,
        fixture.store,
        run.store,
    );
}

/// Outputs agree exactly if they agree in each of their ten fields.
pub proof fn law_outputs_agree_in_every_field(a: SyntheticProofOutputs, b: SyntheticProofOutputs)
    ensures
        a@ == b@ <==> {
            &&& a.mode == b.mode
            &&& a.spec == b.spec
            &&& a.updates_processed == b.updates_processed
            &&& a.prev_header@ == b.prev_header@
            &&& a.prev_head == b.prev_head
            &&& a.prev_sync_committee_hash@ == b.prev_sync_committee_hash@
            &&& a.new_header@ == b.new_header@
            &&& a.new_head == b.new_head
            &&& a.sync_committee_hash@ == b.sync_committee_hash@
            &&& a.next_sync_committee_hash@ == b.next_sync_committee_hash@
        },
{
}

} // verus!
