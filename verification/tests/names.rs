use helios_benchmark::mode::{
    convert_mode, mode_from_name, mode_label, parse_mode, restore_mode, select_preset, spec_label,
    BenchmarkMode, ConsensusPreset, SyntheticBenchmarkMode, SyntheticBenchmarkSpec,
};
use helios_benchmark::proof_mode::{is_mock_prover, selected_proof_mode, SyntheticProofMode};
use helios_benchmark::spans::{avg, span_kind, Average, SpanKind, SpanTimings};
use helios_benchmark::text::{decimal, same_text};

#[test]
fn modes_parse_by_name() {
    assert_eq!(parse_mode("strict"), BenchmarkMode::Strict);
    assert_eq!(parse_mode("simplified"), BenchmarkMode::Simplified);
    assert_eq!(mode_from_name("Strict"), None);
    assert_eq!(mode_from_name(""), None);
    assert_eq!(mode_from_name("strict "), None);
}

#[test]
fn modes_and_names_round_trip() {
    for mode in [BenchmarkMode::Strict, BenchmarkMode::Simplified] {
        assert_eq!(parse_mode(mode_label(mode)), mode);
        assert_eq!(restore_mode(convert_mode(mode)), mode);
    }
    assert_eq!(mode_label(BenchmarkMode::Simplified), "simplified");
    assert_eq!(convert_mode(BenchmarkMode::Strict), SyntheticBenchmarkMode::Strict);
    assert_eq!(restore_mode(SyntheticBenchmarkMode::Simplified), BenchmarkMode::Simplified);
}

#[test]
fn presets_are_selected_by_spec_and_mode() {
    let strict = BenchmarkMode::Strict;
    let simplified = BenchmarkMode::Simplified;
    assert_eq!(select_preset("minimal", strict), Some(ConsensusPreset::Minimal));
    assert_eq!(select_preset("minimal", simplified), Some(ConsensusPreset::SimplifiedMinimal));
    assert_eq!(select_preset("mainnet", strict), Some(ConsensusPreset::Mainnet));
    assert_eq!(select_preset("mainnet", simplified), Some(ConsensusPreset::SimplifiedMainnet));
    assert_eq!(select_preset("sepolia", strict), None);
    assert_eq!(select_preset("", simplified), None);
}

#[test]
fn presets_know_their_spec_and_mode() {
    for name in ["minimal", "mainnet"] {
        for mode in [BenchmarkMode::Strict, BenchmarkMode::Simplified] {
            let preset = select_preset(name, mode).unwrap();
            assert_eq!(spec_label(preset.nominal_spec()), name);
            assert_eq!(preset.mode(), mode);
        }
    }
    assert_eq!(
        ConsensusPreset::SimplifiedMainnet.nominal_spec(),
        SyntheticBenchmarkSpec::Mainnet
    );
}

#[test]
fn mock_and_light_provers_make_core_proofs() {
    assert_eq!(selected_proof_mode(Some("mock")), SyntheticProofMode::Core);
    assert_eq!(selected_proof_mode(Some("light")), SyntheticProofMode::Core);
    assert_eq!(selected_proof_mode(Some("cuda")), SyntheticProofMode::Plonk);
    assert_eq!(selected_proof_mode(Some("")), SyntheticProofMode::Plonk);
    assert_eq!(selected_proof_mode(None), SyntheticProofMode::Plonk);
}

#[test]
fn mock_prover_is_told_apart() {
    assert!(is_mock_prover(Some("mock")));
    assert!(!is_mock_prover(Some("light")));
    assert!(!is_mock_prover(Some("Mock")));
    assert!(!is_mock_prover(None));
}

#[test]
fn proof_modes_know_what_they_support() {
    assert!(!SyntheticProofMode::Core.requires_verification());
    assert!(SyntheticProofMode::Compressed.requires_verification());
    assert!(SyntheticProofMode::Plonk.requires_verification());
    assert!(!SyntheticProofMode::Core.requires_plonk_bytes());
    assert!(!SyntheticProofMode::Compressed.requires_plonk_bytes());
    assert!(SyntheticProofMode::Plonk.requires_plonk_bytes());
}

#[test]
fn spans_are_found_by_exact_name() {
    assert_eq!(span_kind("prove"), Some(SpanKind::Prove));
    assert_eq!(span_kind("prove plonk"), Some(SpanKind::Plonk));
    assert_eq!(span_kind("prove wrap"), Some(SpanKind::Wrap));
    assert_eq!(span_kind("prove core"), None);
    assert_eq!(span_kind("provers"), None);
}

#[test]
fn closed_spans_go_into_their_buffers() {
    let mut timings = SpanTimings::new();
    timings.close_span("prove", Some(10));
    timings.close_span("prove wrap", Some(3));
    timings.close_span("setup", Some(99));
    timings.close_span("prove", None);
    timings.close_span("prove", Some(20));
    timings.close_span("prove plonk", Some(7));
    assert_eq!(timings.prove, vec![10, 20]);
    assert_eq!(timings.plonk, vec![7]);
    assert_eq!(timings.wrap, vec![3]);
    timings.clear();
    assert!(timings.prove.is_empty() && timings.plonk.is_empty() && timings.wrap.is_empty());
}

#[test]
fn averages_are_exact() {
    assert_eq!(avg(&[]), Some(Average { total: 0, count: 0 }));
    assert_eq!(avg(&[5]), Some(Average { total: 5, count: 1 }));
    assert_eq!(avg(&[1, 2, 4]), Some(Average { total: 7, count: 3 }));
    assert_eq!(avg(&[u128::MAX, 0]), Some(Average { total: u128::MAX, count: 2 }));
    assert_eq!(avg(&[u128::MAX, 1]), None);
}

#[test]
fn numbers_are_written_in_decimal() {
    for n in [0u128, 9, 10, 99, 100, 1_000_007, u64::MAX as u128, u128::MAX] {
        assert_eq!(decimal(n), n.to_string());
        assert_eq!(decimal(n).parse::<u128>(), Ok(n));
    }
    assert_eq!(decimal(1726), "1726");
}

#[test]
fn texts_are_compared_by_their_characters() {
    assert!(same_text("", ""));
    assert!(same_text("minimal", "minimal"));
    assert!(!same_text("minimal", "minima"));
    assert!(!same_text("a", "b"));
}
