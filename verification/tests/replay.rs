use helios_benchmark::fixture::{
    fixture_config, restore_fixture, unwrap_input, wrap_input, BenchmarkFixture, BenchmarkStep,
    SyntheticProofInputs,
};
use helios_benchmark::light_client::{
    BeaconBlockHeader, LightClientStore, StoreRoots, SyncCommittee,
};
use helios_benchmark::mode::{
    BenchmarkMode, ConsensusPreset, SyntheticBenchmarkMode, SyntheticBenchmarkSpec,
};
use helios_benchmark::outputs::{
    expected_outputs, outputs_from_roots, BenchmarkRun, ReplayTask, SyntheticProofOutputs,
};

fn hex(bytes: &[u8]) -> String {
    let mut text = String::new();
    for byte in bytes {
        text.push_str(&format!("{byte:02x}"));
    }
    text
}

fn header_a() -> BeaconBlockHeader {
    BeaconBlockHeader {
        slot: 64,
        proposer_index: 5,
        parent_root: [0x11; 32],
        state_root: [0x22; 32],
        body_root: [0x33; 32],
    }
}

fn header_b() -> BeaconBlockHeader {
    BeaconBlockHeader {
        slot: 128,
        proposer_index: 6,
        parent_root: [0x44; 32],
        state_root: [0x55; 32],
        body_root: [0x66; 32],
    }
}

fn committee(first: u8, aggregate: u8) -> SyncCommittee {
    let pubkeys = (0..32u8).map(|i| [first + i; 48]).collect();
    SyncCommittee { pubkeys, aggregate_pubkey: [aggregate; 48] }
}

const HEADER_A: &str = "588857aa87b05000c8800de068ca24c43834ccbfdc195702a050cf3e1a81f04d";
const HEADER_B: &str = "23ed7694354877ff4dc489c8c40b128ca081334fa1ee2147080c9ec8c692a9c0";
const COMMITTEE_A: &str = "b33a32b0bb9c5848dc68be2d122663b4f6d220fe44b46c6da10e09a72b8faee2";
const COMMITTEE_B: &str = "c9da76fbe373f3e840aafca4b53d6a6dc8526e54f0df201623f66b10b68354f4";

fn store_before() -> LightClientStore<&'static str> {
    LightClientStore {
        finalized_header: header_a(),
        current_sync_committee: committee(0, 0xaa),
        next_sync_committee: None,
        rest: "before",
    }
}

fn run_after(next: Option<SyncCommittee>) -> BenchmarkRun<()> {
    BenchmarkRun {
        updates_processed: 8,
        store: LightClientStore {
            finalized_header: header_b(),
            current_sync_committee: committee(1, 0xbb),
            next_sync_committee: next,
            rest: (),
        },
    }
}

fn fixture(mode: BenchmarkMode) -> BenchmarkFixture<u8, &'static str, char> {
    BenchmarkFixture {
        mode,
        genesis_root: [7; 32],
        forks: 42,
        store: store_before(),
        steps: vec![
            BenchmarkStep { current_slot: 70, update: 'x' },
            BenchmarkStep { current_slot: 71, update: 'y' },
            BenchmarkStep { current_slot: 90, update: 'z' },
        ],
    }
}

#[test]
fn header_roots() {
    let empty = BeaconBlockHeader {
        slot: 0,
        proposer_index: 0,
        parent_root: [0; 32],
        state_root: [0; 32],
        body_root: [0; 32],
    };
    assert_eq!(
        hex(&empty.tree_hash_root()),
        "c78009fdf07fc56a11f122370658a353aaa542ed63e44c4bc15ff4cd105ab33c"
    );
    let header = BeaconBlockHeader {
        slot: 0x0102030405060708,
        proposer_index: 9,
        parent_root: [1; 32],
        state_root: [2; 32],
        body_root: [3; 32],
    };
    assert_eq!(
        hex(&header.tree_hash_root()),
        "0fee171337d8c470b6a46f75e8185af53b5bdf6bf67eb0bcb3f82afdf6a308f0"
    );
    assert_eq!(hex(&header_a().tree_hash_root()), HEADER_A);
}

#[test]
fn committee_roots() {
    let none = SyncCommittee { pubkeys: vec![], aggregate_pubkey: [0; 48] };
    assert_eq!(
        hex(&none.tree_hash_root()),
        "b62c0bf36d7fee9a6ed49f7529e9fbf6ebc93268f43832b4033eef0ba335ba65"
    );
    let three = SyncCommittee {
        pubkeys: vec![[1; 48], [2; 48], [3; 48]],
        aggregate_pubkey: [9; 48],
    };
    assert_eq!(
        hex(&three.tree_hash_root()),
        "bb0704600ef20c5388c85ed709dc07e5ddc5c3fe7bb8a5c34ff6b3ceefdace26"
    );
    let mut key = [0u8; 48];
    let mut aggregate = [0u8; 48];
    for i in 0..48 {
        key[i] = i as u8;
        aggregate[i] = 48 + i as u8;
    }
    let one = SyncCommittee { pubkeys: vec![key], aggregate_pubkey: aggregate };
    assert_eq!(
        hex(&one.tree_hash_root()),
        "bfa4108c5d5878b2aa52aaa74fcf141b1989f9b9a99ab2e234b3e63ca7e4e7c5"
    );
    assert_eq!(hex(&committee(0, 0xaa).tree_hash_root()), COMMITTEE_A);
}

#[test]
fn committees_of_any_size_are_hashed() {
    let full = SyncCommittee { pubkeys: vec![[0; 48]; 512], aggregate_pubkey: [0; 48] };
    assert_eq!(hex(&full.tree_hash_root()), "173669ae8794c057def63b20372114a628abb029354a2ef50d7a1aaa9a3dab4a");
    let odd = SyncCommittee { pubkeys: vec![[5; 48]; 1000], aggregate_pubkey: [6; 48] };
    assert_eq!(hex(&odd.tree_hash_root()), "4014ce296bd4ff5dacd0e7f05d0313407c6748100a83d658ae8ce9d309142fa5");
}

#[test]
fn store_roots_cover_header_and_committees() {
    let roots = store_before().roots();
    assert_eq!(roots.head, 64);
    assert_eq!(hex(&roots.header), HEADER_A);
    assert_eq!(hex(&roots.sync_committee), COMMITTEE_A);
    assert_eq!(roots.next_sync_committee, None);
    let roots = run_after(Some(committee(0, 0xaa))).store.roots();
    assert_eq!(roots.next_sync_committee.map(|root| hex(&root)).as_deref(), Some(COMMITTEE_A));
}

#[test]
fn synthetic_genesis_root_is_all_sevens() {
    let config = fixture_config(BenchmarkMode::Simplified, 11, 3, 22);
    assert_eq!(config.mode, BenchmarkMode::Simplified);
    assert_eq!(config.initial_slot, 11);
    assert_eq!(config.committee_transitions, 3);
    assert_eq!(config.signers_per_update, 22);
    assert_eq!(config.genesis_root, [7; 32]);
}

#[test]
fn inputs_are_packed_for_their_preset() {
    let inputs = wrap_input(ConsensusPreset::Minimal, fixture(BenchmarkMode::Strict));
    assert!(matches!(inputs, SyntheticProofInputs::MinimalStrict(_)));
    let inputs = wrap_input(ConsensusPreset::Mainnet, fixture(BenchmarkMode::Strict));
    assert!(matches!(inputs, SyntheticProofInputs::MainnetStrict(_)));
    let inputs = wrap_input(ConsensusPreset::SimplifiedMinimal, fixture(BenchmarkMode::Simplified));
    assert!(matches!(inputs, SyntheticProofInputs::MinimalSimplified(_)));
    let inputs = wrap_input(ConsensusPreset::SimplifiedMainnet, fixture(BenchmarkMode::Simplified));
    assert!(matches!(inputs, SyntheticProofInputs::MainnetSimplified(_)));
}

#[test]
fn packed_fixtures_come_back_unchanged() {
    let inputs = wrap_input(ConsensusPreset::SimplifiedMainnet, fixture(BenchmarkMode::Simplified));
    let (preset, carried) = unwrap_input(inputs);
    assert_eq!(preset, ConsensusPreset::SimplifiedMainnet);
    assert_eq!(carried.mode, SyntheticBenchmarkMode::Simplified);
    let restored = restore_fixture(carried);
    assert_eq!(restored.mode, BenchmarkMode::Simplified);
    assert_eq!(restored.genesis_root, [7; 32]);
    assert_eq!(restored.forks, 42);
    assert_eq!(restored.store, store_before());
    let steps: Vec<(u64, char)> =
        restored.steps.iter().map(|step| (step.current_slot, step.update)).collect();
    assert_eq!(steps, vec![(70, 'x'), (71, 'y'), (90, 'z')]);
}

#[test]
fn expected_outputs_name_both_ends_of_the_replay() {
    let outputs = expected_outputs(
        SyntheticBenchmarkSpec::Minimal,
        BenchmarkMode::Strict,
        &fixture(BenchmarkMode::Strict),
        &run_after(Some(committee(0, 0xaa))),
    );
    assert_eq!(outputs.mode, SyntheticBenchmarkMode::Strict);
    assert_eq!(outputs.spec, SyntheticBenchmarkSpec::Minimal);
    assert_eq!(outputs.updates_processed, 8);
    assert_eq!(hex(&outputs.prev_header), HEADER_A);
    assert_eq!(outputs.prev_head, 64);
    assert_eq!(hex(&outputs.prev_sync_committee_hash), COMMITTEE_A);
    assert_eq!(hex(&outputs.new_header), HEADER_B);
    assert_eq!(outputs.new_head, 128);
    assert_eq!(hex(&outputs.sync_committee_hash), COMMITTEE_B);
    assert_eq!(hex(&outputs.next_sync_committee_hash), COMMITTEE_A);
}

#[test]
fn unknown_next_committee_is_reported_as_zero() {
    let outputs = expected_outputs(
        SyntheticBenchmarkSpec::Mainnet,
        BenchmarkMode::Simplified,
        &fixture(BenchmarkMode::Simplified),
        &run_after(None),
    );
    assert_eq!(outputs.mode, SyntheticBenchmarkMode::Simplified);
    assert_eq!(outputs.next_sync_committee_hash, [0; 32]);
}

#[test]
fn outputs_are_put_together_from_given_roots() {
    let before = StoreRoots {
        head: 1,
        header: [1; 32],
        sync_committee: [2; 32],
        next_sync_committee: Some([3; 32]),
    };
    let after = StoreRoots {
        head: 9,
        header: [4; 32],
        sync_committee: [5; 32],
        next_sync_committee: Some([6; 32]),
    };
    let outputs = outputs_from_roots(
        SyntheticBenchmarkSpec::Mainnet,
        SyntheticBenchmarkMode::Strict,
        77,
        &before,
        &after,
    );
    let expected = SyntheticProofOutputs {
        mode: SyntheticBenchmarkMode::Strict,
        spec: SyntheticBenchmarkSpec::Mainnet,
        updates_processed: 77,
        prev_header: [1; 32],
        prev_head: 1,
        prev_sync_committee_hash: [2; 32],
        new_header: [4; 32],
        new_head: 9,
        sync_committee_hash: [5; 32],
        next_sync_committee_hash: [6; 32],
    };
    assert_eq!(outputs, expected);
    assert!(outputs.same(&expected));
}

#[test]
fn proven_program_meets_the_host() {
    for (preset, mode) in [
        (ConsensusPreset::Minimal, BenchmarkMode::Strict),
        (ConsensusPreset::SimplifiedMinimal, BenchmarkMode::Simplified),
        (ConsensusPreset::Mainnet, BenchmarkMode::Strict),
        (ConsensusPreset::SimplifiedMainnet, BenchmarkMode::Simplified),
    ] {
        let run = run_after(None);
        let expected = expected_outputs(preset.nominal_spec(), mode, &fixture(mode), &run);
        let (task, replayed) = ReplayTask::open(wrap_input(preset, fixture(mode)));
        assert_eq!(task.preset, preset);
        assert_eq!(replayed.mode, mode);
        assert_eq!(replayed.store, store_before());
        assert!(task.finish(&run).same(&expected));
        assert_eq!(task.finish(&run), expected);
    }
}

#[test]
fn outputs_differ_if_any_field_differs() {
    let outputs = expected_outputs(
        SyntheticBenchmarkSpec::Minimal,
        BenchmarkMode::Strict,
        &fixture(BenchmarkMode::Strict),
        &run_after(None),
    );
    let mut last_byte = outputs;
    last_byte.next_sync_committee_hash[31] = 1;
    let mut variants = vec![last_byte];
    variants.push(SyntheticProofOutputs { mode: SyntheticBenchmarkMode::Simplified, ..outputs });
    variants.push(SyntheticProofOutputs { spec: SyntheticBenchmarkSpec::Mainnet, ..outputs });
    variants.push(SyntheticProofOutputs { updates_processed: 7, ..outputs });
    variants.push(SyntheticProofOutputs { prev_header: [0; 32], ..outputs });
    variants.push(SyntheticProofOutputs { prev_head: 65, ..outputs });
    variants.push(SyntheticProofOutputs { prev_sync_committee_hash: [0; 32], ..outputs });
    variants.push(SyntheticProofOutputs { new_header: [0; 32], ..outputs });
    variants.push(SyntheticProofOutputs { new_head: 0, ..outputs });
    variants.push(SyntheticProofOutputs { sync_committee_hash: [0; 32], ..outputs });
    for variant in &variants {
        assert!(!outputs.same(variant));
        assert!(!variant.same(&outputs));
    }
    assert!(outputs.same(&outputs));
}
