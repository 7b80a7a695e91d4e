use helios_benchmark::mode::{
    BenchmarkMode, ConsensusPreset, SyntheticBenchmarkMode, SyntheticBenchmarkSpec,
};
use helios_benchmark::outputs::SyntheticProofOutputs;
use helios_benchmark::proof_mode::SyntheticProofMode;
use helios_benchmark::report::BenchmarkRecord;
use helios_benchmark::session::{run, Action, BenchmarkArgs, BenchmarkError, Event, Session};
use helios_benchmark::spans::{Average, SpanTimings};

fn args(spec_name: &str, runs: usize) -> BenchmarkArgs<'_, str> {
    BenchmarkArgs {
        spec_name,
        mode: BenchmarkMode::Strict,
        committee_transitions: 8,
        initial_slot: 32,
        signers_per_update: 22,
        runs,
        output: "report.csv",
    }
}

fn begin(runs: usize) -> Session {
    match run(&args("minimal", runs)) {
        Ok(session) => session,
        Err(error) => panic!("{error:?}"),
    }
}

fn outputs(new_head: u64) -> SyntheticProofOutputs {
    SyntheticProofOutputs {
        mode: SyntheticBenchmarkMode::Strict,
        spec: SyntheticBenchmarkSpec::Minimal,
        updates_processed: 8,
        prev_header: [1; 32],
        prev_head: 32,
        prev_sync_committee_hash: [2; 32],
        new_header: [3; 32],
        new_head,
        sync_committee_hash: [4; 32],
        next_sync_committee_hash: [0; 32],
    }
}

fn timings() -> SpanTimings {
    SpanTimings { prove: vec![100, 101], plonk: vec![50], wrap: vec![] }
}

/// The answer that lets a session go on.
fn answer(action: Action, prover: Option<&str>, verified: &mut u128) -> Event {
    match action {
        Action::ResolveSigners { requested, .. } => {
            Event::Signers { effective: requested - 1, committee_size: 32 }
        }
        Action::GenerateFixture { .. } => Event::Elapsed(1000),
        Action::RunNative => Event::Outputs(outputs(96)),
        Action::EncodeInputs | Action::LoadProgram | Action::ClearTimings => Event::Done,
        Action::SetUp => Event::Elapsed(2000),
        Action::ReadProver => Event::Prover(prover.map(|name| name.to_string())),
        Action::Execute => {
            Event::Executed { elapsed_us: 3000, total_instructions: 4000, gas: Some(5000) }
        }
        Action::Prove(_) | Action::ProveCompressed | Action::Append(_) => Event::Done,
        Action::ReadTimings => Event::Timings(timings()),
        Action::DecodeOutputs => Event::Outputs(outputs(96)),
        Action::Verify => {
            *verified += 10;
            Event::Elapsed(*verified)
        }
        Action::MeasureProof => Event::Size(868),
        Action::MeasureCompressed => Event::Size(7777),
        Action::VerifyCompressed => Event::Elapsed(66),
        Action::Finish | Action::Stop(_) => Event::Done,
    }
}

/// Answers a session until it ends, or until `stop_at` holds of the action asked for.
fn drive(
    mut session: Session,
    prover: Option<&str>,
    stop_at: fn(Action) -> bool,
) -> (Session, Vec<Action>) {
    let mut actions = vec![];
    let mut verified = 0;
    loop {
        let action = session.action();
        if stop_at(action) || matches!(action, Action::Finish | Action::Stop(_)) {
            return (session, actions);
        }
        actions.push(action);
        session = session.advance(answer(action, prover, &mut verified));
    }
}

fn never(_: Action) -> bool {
    false
}

fn count(actions: &[Action], kind: fn(&Action) -> bool) -> usize {
    actions.iter().filter(|action| kind(action)).count()
}

fn appended(actions: &[Action]) -> BenchmarkRecord {
    match actions.last() {
        Some(Action::Append(record)) => *record,
        other => panic!("{other:?}"),
    }
}

fn plonk_record(runs: usize, verify_total: u128) -> BenchmarkRecord {
    BenchmarkRecord {
        mode: BenchmarkMode::Strict,
        committee_size: 32,
        initial_slot: 32,
        signers_per_update: 21,
        committee_transitions: 8,
        runs,
        fixture_us: 1000,
        setup_us: 2000,
        prove_avg: Average { total: 201, count: 2 },
        verify_avg: Average { total: verify_total, count: runs },
        prev_head: 32,
        new_head: 96,
        updates_processed: 8,
        proof_bytes: 868,
        total_instructions: 4000,
        gas: 5000,
        execute_us: 3000,
        compressed_proof_bytes: 7777,
        compressed_verify_us: 66,
        plonk_span_avg: Average { total: 50, count: 1 },
        wrap_span_avg: Average { total: 0, count: 0 },
    }
}

#[test]
fn unknown_specs_are_turned_down() {
    for name in ["", "Minimal", "holesky"] {
        match run(&args(name, 1)) {
            Ok(_) => panic!("{name} is no spec"),
            Err(error) => assert_eq!(error, BenchmarkError::UnknownSpec),
        }
    }
    assert_eq!(
        BenchmarkError::UnknownSpec.message(""),
        "spec must be one of: minimal, mainnet"
    );
}

#[test]
fn known_specs_open_a_session() {
    assert_eq!(begin(1).preset(), ConsensusPreset::Minimal);
    assert_eq!(begin(1).spec_name(), "minimal");
    assert_eq!(
        begin(1).action(),
        Action::ResolveSigners {
            spec: SyntheticBenchmarkSpec::Minimal,
            mode: BenchmarkMode::Strict,
            requested: 22,
        }
    );
    let simplified = BenchmarkArgs { mode: BenchmarkMode::Simplified, ..args("mainnet", 1) };
    match run(&simplified) {
        Ok(session) => {
            assert_eq!(session.preset(), ConsensusPreset::SimplifiedMainnet);
            assert_eq!(session.spec_name(), "mainnet");
        }
        Err(error) => panic!("{error:?}"),
    }
}

#[test]
fn fixture_uses_the_resolved_signers() {
    let (session, _) = drive(begin(1), None, |action| {
        matches!(action, Action::GenerateFixture { .. })
    });
    assert_eq!(
        session.action(),
        Action::GenerateFixture {
            mode: BenchmarkMode::Strict,
            initial_slot: 32,
            committee_transitions: 8,
            signers_per_update: 21,
        }
    );
}

#[test]
fn plonk_run_takes_its_course() {
    let (session, actions) = drive(begin(2), None, never);
    assert_eq!(session.action(), Action::Finish);
    let proving = Action::Prove(SyntheticProofMode::Plonk);
    let expected = [
        Action::RunNative,
        Action::EncodeInputs,
        Action::LoadProgram,
        Action::SetUp,
        Action::ReadProver,
        Action::Execute,
        Action::ClearTimings,
        proving,
        proving,
        Action::ReadTimings,
        Action::DecodeOutputs,
        Action::Verify,
        Action::Verify,
        Action::MeasureProof,
        Action::ProveCompressed,
        Action::MeasureCompressed,
        Action::VerifyCompressed,
        Action::Append(plonk_record(2, 30)),
    ];
    assert_eq!(actions[2..], expected);
    assert_eq!(actions.len(), 16 + 2 * 2);
}

#[test]
fn light_run_skips_verification_and_sizes() {
    let (session, actions) = drive(begin(3), Some("light"), never);
    assert_eq!(session.action(), Action::Finish);
    assert_eq!(actions.len(), 12 + 3);
    assert_eq!(count(&actions, |action| *action == Action::Prove(SyntheticProofMode::Core)), 3);
    assert_eq!(count(&actions, |action| *action == Action::Verify), 0);
    assert_eq!(count(&actions, |action| *action == Action::ProveCompressed), 0);
    let record = appended(&actions);
    assert_eq!(record.verify_avg, Average { total: 0, count: 3 });
    assert_eq!(record.proof_bytes, 0);
    assert_eq!(record.compressed_proof_bytes, 0);
    assert_eq!(record.compressed_verify_us, 0);
    assert_eq!(record.prove_avg, Average { total: 201, count: 2 });
}

#[test]
fn mock_run_goes_the_whole_way_of_proving_and_verifying() {
    let (session, actions) = drive(begin(3), Some("mock"), never);
    assert_eq!(session.action(), Action::Finish);
    assert_eq!(actions.len(), 12 + 2 * 3);
    let proving = Action::Prove(SyntheticProofMode::Core);
    assert_eq!(
        actions[9..actions.len() - 1],
        [
            proving,
            proving,
            proving,
            Action::ReadTimings,
            Action::DecodeOutputs,
            Action::Verify,
            Action::Verify,
            Action::Verify,
        ]
    );
    let record = appended(&actions);
    assert_eq!(record.verify_avg, Average { total: 60, count: 3 });
    assert_eq!(record.proof_bytes, 0);
    assert_eq!(record.compressed_proof_bytes, 0);
    assert_eq!(record.compressed_verify_us, 0);
}

#[test]
fn mock_run_stops_where_its_proof_does_not_verify() {
    let (session, _) = drive(begin(1), Some("mock"), |action| action == Action::Verify);
    assert_eq!(
        session.advance(Event::Failed).action(),
        Action::Stop(BenchmarkError::Verify)
    );
    let (session, _) = drive(begin(2), Some("mock"), |action| action == Action::Verify);
    let session = session.advance(Event::Elapsed(u128::MAX)).advance(Event::Elapsed(1));
    assert_eq!(session.action(), Action::Stop(BenchmarkError::DurationOverflow));
}

#[test]
fn stopped_runs_append_nothing() {
    for at in 0..18 {
        let mut session = begin(2);
        let mut verified = 0;
        let mut asked = vec![];
        for _ in 0..at {
            let action = session.action();
            asked.push(action);
            session = session.advance(answer(action, None, &mut verified));
        }
        asked.push(session.action());
        session = session.advance(Event::Failed);
        assert!(matches!(session.action(), Action::Stop(_)));
        assert_eq!(count(&asked, |action| matches!(action, Action::Append(_))), 0);
    }
}

#[test]
fn equal_replays_report_equally() {
    let (_, few) = drive(begin(1), Some("mock"), never);
    let (_, many) = drive(begin(5), None, never);
    let (few, many) = (appended(&few), appended(&many));
    assert_eq!(few.prev_head, many.prev_head);
    assert_eq!(few.new_head, many.new_head);
    assert_eq!(few.updates_processed, many.updates_processed);
    assert_eq!(few.total_instructions, many.total_instructions);
    assert_eq!(few.gas, many.gas);
}

#[test]
fn arguments_can_be_cloned() {
    let args = args("mainnet", 4);
    let copy = args.clone();
    assert_eq!(copy.spec_name, "mainnet");
    assert_eq!(copy.mode, args.mode);
    assert_eq!(copy.committee_transitions, 8);
    assert_eq!(copy.initial_slot, 32);
    assert_eq!(copy.signers_per_update, 22);
    assert_eq!(copy.runs, 4);
    assert_eq!(copy.output, "report.csv");
}

#[test]
fn finished_runs_do_all_their_work() {
    for runs in 1..6 {
        let (session, actions) = drive(begin(runs), Some("cpu"), never);
        assert_eq!(session.action(), Action::Finish);
        assert_eq!(count(&actions, |action| matches!(action, Action::Prove(_))), runs);
        assert_eq!(count(&actions, |action| *action == Action::Verify), runs);
        assert_eq!(
            count(&actions, |action| *action == Action::Prove(SyntheticProofMode::Plonk)),
            runs
        );
        assert_eq!(count(&actions, |action| matches!(action, Action::GenerateFixture { .. })), 1);
        assert_eq!(count(&actions, |action| *action == Action::RunNative), 1);
        assert_eq!(count(&actions, |action| *action == Action::SetUp), 1);
        assert_eq!(count(&actions, |action| *action == Action::Execute), 1);
        assert_eq!(count(&actions, |action| *action == Action::MeasureProof), 1);
        assert_eq!(count(&actions, |action| *action == Action::ProveCompressed), 1);
        assert_eq!(count(&actions, |action| *action == Action::MeasureCompressed), 1);
        assert_eq!(count(&actions, |action| *action == Action::VerifyCompressed), 1);
        assert_eq!(count(&actions, |action| matches!(action, Action::Append(_))), 1);
        assert_eq!(appended(&actions).runs, runs);
        assert_eq!(appended(&actions).verify_avg.count, runs);
    }
}

#[test]
fn spans_are_cleared_before_and_read_after_the_proofs() {
    let (_, actions) = drive(begin(4), None, never);
    let place = |wanted: Action| actions.iter().position(|action| *action == wanted).unwrap();
    let proving = Action::Prove(SyntheticProofMode::Plonk);
    let last = actions.iter().rposition(|action| *action == proving).unwrap();
    assert!(place(Action::Execute) < place(Action::ClearTimings));
    assert_eq!(place(Action::ClearTimings) + 1, place(proving));
    assert_eq!(last + 1, place(Action::ReadTimings));
    assert!(place(Action::ReadTimings) < place(Action::ProveCompressed));
}

#[test]
fn missing_gas_is_zero() {
    let (session, _) = drive(begin(1), None, |action| action == Action::Execute);
    let session = session.advance(Event::Executed {
        elapsed_us: 1,
        total_instructions: 2,
        gas: None,
    });
    let (_, actions) = drive(session, None, never);
    let record = appended(&actions);
    assert_eq!((record.execute_us, record.total_instructions, record.gas), (1, 2, 0));
}

#[test]
fn zero_runs_stop_for_want_of_a_proof() {
    let (session, actions) = drive(begin(0), None, never);
    assert_eq!(session.action(), Action::Stop(BenchmarkError::NoRuns));
    assert_eq!(actions.last(), Some(&Action::ReadTimings));
    assert_eq!(count(&actions, |action| matches!(action, Action::Prove(_))), 0);
    assert!(BenchmarkError::NoRuns.is_fatal());
    assert_eq!(BenchmarkError::NoRuns.message(""), "runs must be greater than zero");
}

#[test]
fn diverging_outputs_are_not_reported() {
    let (session, _) = drive(begin(2), None, |action| action == Action::DecodeOutputs);
    let session = session.advance(Event::Outputs(outputs(97)));
    assert_eq!(session.action(), Action::Stop(BenchmarkError::Diverged));
    assert!(!BenchmarkError::Diverged.is_fatal());
    assert_eq!(
        BenchmarkError::Diverged.message("ignored"),
        "proof outputs diverged from native benchmark run"
    );
}

#[test]
fn overlong_span_durations_stop_the_run() {
    let (session, _) = drive(begin(2), None, |action| action == Action::ReadTimings);
    let spans = SpanTimings { prove: vec![1], plonk: vec![u128::MAX, 1], wrap: vec![] };
    let session = session.advance(Event::Timings(spans));
    assert_eq!(session.action(), Action::Stop(BenchmarkError::DurationOverflow));
    assert!(BenchmarkError::DurationOverflow.is_fatal());
    assert_eq!(
        BenchmarkError::DurationOverflow.message(""),
        "attempt to add with overflow"
    );
}

#[test]
fn overlong_verification_stops_the_run() {
    let (session, _) = drive(begin(2), None, |action| action == Action::Verify);
    let session = session.advance(Event::Elapsed(u128::MAX)).advance(Event::Elapsed(1));
    assert_eq!(session.action(), Action::MeasureProof);
    let (session, actions) = drive(session, None, never);
    assert_eq!(actions.last(), Some(&Action::VerifyCompressed));
    assert_eq!(session.action(), Action::Stop(BenchmarkError::DurationOverflow));
}

#[test]
fn every_failing_action_has_its_error() {
    let cases: Vec<(fn(Action) -> bool, BenchmarkError, &str)> = vec![
        (
            |action| matches!(action, Action::GenerateFixture { .. }),
            BenchmarkError::Fixture,
            "failed to generate synthetic fixture: why",
        ),
        (
            |action| action == Action::RunNative,
            BenchmarkError::Native,
            "native benchmark run failed: why",
        ),
        (
            |action| action == Action::EncodeInputs,
            BenchmarkError::Encode,
            "failed to encode synthetic proof inputs",
        ),
        (
            |action| action == Action::LoadProgram,
            BenchmarkError::Load,
            "failed to read synthetic benchmark ELF at why",
        ),
        (
            |action| action == Action::SetUp,
            BenchmarkError::SetUp,
            "failed to set up synthetic benchmark program",
        ),
        (
            |action| action == Action::Execute,
            BenchmarkError::Execute,
            "execute() for metrics collection failed",
        ),
        (
            |action| matches!(action, Action::Prove(_)),
            BenchmarkError::Prove,
            "synthetic update proof failed",
        ),
        (
            |action| action == Action::DecodeOutputs,
            BenchmarkError::Decode,
            "failed to decode synthetic proof public values",
        ),
        (
            |action| action == Action::Verify,
            BenchmarkError::Verify,
            "synthetic update proof verification failed",
        ),
        (
            |action| action == Action::ProveCompressed,
            BenchmarkError::CompressedProof,
            "compressed proof failed",
        ),
        (
            |action| action == Action::MeasureCompressed,
            BenchmarkError::CompressedSize,
            "serialized_size on compressed proof failed",
        ),
        (
            |action| action == Action::VerifyCompressed,
            BenchmarkError::CompressedVerify,
            "compressed proof verification failed",
        ),
        (|action| matches!(action, Action::Append(_)), BenchmarkError::Append, "why"),
    ];
    for (at, error, message) in cases {
        let (session, _) = drive(begin(2), None, at);
        assert!(at(session.action()));
        let session = session.advance(Event::Failed);
        assert_eq!(session.action(), Action::Stop(error));
        assert_eq!(error.message("why"), message);
        assert!(!error.is_fatal());
    }
}

#[test]
fn answers_out_of_order_stop_the_run() {
    let session = begin(1).advance(Event::Done);
    assert_eq!(session.action(), Action::Stop(BenchmarkError::OutOfOrder));
    let session = begin(1).advance(Event::Failed);
    assert_eq!(session.action(), Action::Stop(BenchmarkError::OutOfOrder));
    let (session, _) = drive(begin(1), None, |action| action == Action::SetUp);
    let session = session.advance(Event::Size(1));
    assert_eq!(session.action(), Action::Stop(BenchmarkError::OutOfOrder));
    assert!(BenchmarkError::OutOfOrder.is_fatal());
    assert_eq!(BenchmarkError::OutOfOrder.message(""), "benchmark step answered out of order");
}

#[test]
fn ended_sessions_stay_ended() {
    let (session, _) = drive(begin(1), None, never);
    let session = session.advance(Event::Failed).advance(Event::Size(1));
    assert_eq!(session.action(), Action::Finish);
    let session = begin(1).advance(Event::Done).advance(Event::Elapsed(1));
    assert_eq!(session.action(), Action::Stop(BenchmarkError::OutOfOrder));
}
