//! The course of a run.
//!
//! A session is asked for the next [`Action`], the program around it performs that action and
//! answers with an [`Event`], and so on until the session asks to finish or to stop. What has been
//! measured is kept in the session and put together for the report at the end.

use vstd::prelude::*;

use crate::mode::{
    law_names_mean_what_they_say, law_spec_names, named_spec, preset_for, select_preset, spec_label, spec_name, BenchmarkMode,
    ConsensusPreset, SyntheticBenchmarkSpec,
};
use crate::outputs::SyntheticProofOutputs;
use crate::proof_mode::{
    is_mock, is_mock_prover, proof_mode_for, selected_proof_mode, SyntheticProofMode,
};
use crate::report::BenchmarkRecord;
use crate::spans::{average_us, avg, Average, SpanTimings};

verus! {

/// The arguments of a run. `P` is the type of paths.
#[derive(Debug)]
pub struct BenchmarkArgs<'a, P: ?Sized> {
    pub spec_name: &'a str,
    pub mode: BenchmarkMode,
    pub committee_transitions: usize,
    pub initial_slot: u64,
    pub signers_per_update: usize,
    pub runs: usize,
    pub output: &'a P,
}

impl<'a, P: ?Sized> Clone for BenchmarkArgs<'a, P> {
    fn clone(&self) -> (args: Self)
        ensures
            args == *self,
    {
        BenchmarkArgs {
            spec_name: self.spec_name,
            mode: self.mode,
            committee_transitions: self.committee_transitions,
            initial_slot: self.initial_slot,
            signers_per_update: self.signers_per_update,
            runs: self.runs,
            output: self.output,
        }
    }
}

/// What a run is to do, once its preset is known.
#[derive(Clone, Copy, Debug, PartialEq, Eq, Structural)]
pub struct RunPlan {
    pub preset: ConsensusPreset,
    pub committee_transitions: usize,
    pub initial_slot: u64,
    pub signers_per_update: usize,
    pub runs: usize,
}

/// Why a run does not finish.
#[derive(Clone, Copy, Debug, PartialEq, Eq, Structural)]
pub enum BenchmarkError {
    UnknownSpec,
    Fixture,
    Native,
    Encode,
    Load,
    SetUp,
    Execute,
    Prove,
    NoRuns,
    Decode,
    Diverged,
    Verify,
    CompressedProof,
    CompressedSize,
    CompressedVerify,
    Append,
    DurationOverflow,
    OutOfOrder,
}

/// The message of an error. `detail` tells what only the program around the session knows: the
/// cause of a failure to generate or replay the fixture or to write the report, and the path of a
/// program that could not be read.
pub open spec fn error_text(error: BenchmarkError, detail: Seq<char>) -> Seq<char> {
    match error {
        BenchmarkError::UnknownSpec => "spec must be one of: minimal, mainnet"@,
        BenchmarkError::Fixture => "failed to generate synthetic fixture: "@ + detail,
        BenchmarkError::Native => "native benchmark run failed: "@ + detail,
        BenchmarkError::Encode => "failed to encode synthetic proof inputs"@,
        BenchmarkError::Load => "failed to read synthetic benchmark ELF at "@ + detail,
        BenchmarkError::SetUp => "failed to set up synthetic benchmark program"@,
        BenchmarkError::Execute => "execute() for metrics collection failed"@,
        BenchmarkError::Prove => "synthetic update proof failed"@,
        BenchmarkError::NoRuns => "runs must be greater than zero"@,
        BenchmarkError::Decode => "failed to decode synthetic proof public values"@,
        BenchmarkError::Diverged => "proof outputs diverged from native benchmark run"@,
        BenchmarkError::Verify => "synthetic update proof verification failed"@,
        BenchmarkError::CompressedProof => "compressed proof failed"@,
        BenchmarkError::CompressedSize => "serialized_size on compressed proof failed"@,
        BenchmarkError::CompressedVerify => "compressed proof verification failed"@,
        BenchmarkError::Append => detail,
        BenchmarkError::DurationOverflow => "attempt to add with overflow"@,
        BenchmarkError::OutOfOrder => "benchmark step answered out of order"@,
    }
}

impl BenchmarkError {
    /// The message of this error.
    pub fn message(self, detail: &str) -> (text: String)
        ensures
            text@ == error_text(self, detail@),
    {
        match self {
            BenchmarkError::UnknownSpec => "spec must be one of: minimal, mainnet".to_owned(),
            BenchmarkError::Fixture => "failed to generate synthetic fixture: ".to_owned().concat(
                detail,
            ),
            BenchmarkError::Native => "native benchmark run failed: ".to_owned().concat(detail),
            BenchmarkError::Encode => "failed to encode synthetic proof inputs".to_owned(),
            BenchmarkError::Load => "failed to read synthetic benchmark ELF at ".to_owned().concat(
                detail,
            ),
            BenchmarkError::SetUp => "failed to set up synthetic benchmark program".to_owned(),
            BenchmarkError::Execute => "execute() for metrics collection failed".to_owned(),
            BenchmarkError::Prove => "synthetic update proof failed".to_owned(),
            BenchmarkError::NoRuns => "runs must be greater than zero".to_owned(),
            BenchmarkError::Decode => "failed to decode synthetic proof public values".to_owned(),
            BenchmarkError::Diverged =>
                "proof outputs diverged from native benchmark run".to_owned(),
            BenchmarkError::Verify => "synthetic update proof verification failed".to_owned(),
            BenchmarkError::CompressedProof => "compressed proof failed".to_owned(),
            BenchmarkError::CompressedSize =>
                "serialized_size on compressed proof failed".to_owned(),
            BenchmarkError::CompressedVerify => "compressed proof verification failed".to_owned(),
            BenchmarkError::Append => detail.to_owned(),
            BenchmarkError::DurationOverflow => "attempt to add with overflow".to_owned(),
            BenchmarkError::OutOfOrder => "benchmark step answered out of order".to_owned(),
        }
    }

    /// Whether the run is given up because it was set up wrongly or because a number got out of
    /// hand, rather than because an action failed.
    pub open spec fn misuse(self) -> bool {
        self is NoRuns || self is DurationOverflow || self is OutOfOrder
    }

    /// Whether this error is to abort the program instead of being returned.
    pub fn is_fatal(self) -> (fatal: bool)
        ensures
            fatal == self.misuse(),
            fatal == (self is NoRuns || self is DurationOverflow || self is OutOfOrder),
    {
        matches!(
            self,
            BenchmarkError::NoRuns | BenchmarkError::DurationOverflow | BenchmarkError::OutOfOrder
        )
    }
}

/// How far a run has come.
#[derive(Clone, Copy, Debug, PartialEq, Eq, Structural)]
pub enum Phase {
    Signers,
    Fixture,
    Native,
    Encode,
    Load,
    SetUp,
    Prover,
    Execute,
    Clear,
    Proving { done: usize },
    Timings,
    Decode,
    Verifying { done: usize },
    ProofSize,
    CompressedProof,
    CompressedSize,
    CompressedVerify,
    Append,
    Finished,
    Stopped(BenchmarkError),
}

/// What the session asks for.
#[derive(Clone, Copy, Debug, PartialEq, Eq, Structural)]
pub enum Action {
    /// Ask the consensus client how many signers an update gets and how large a committee is.
    ResolveSigners { spec: SyntheticBenchmarkSpec, mode: BenchmarkMode, requested: usize },
    /// Generate the fixture, on the clock.
    GenerateFixture {
        mode: BenchmarkMode,
        initial_slot: u64,
        committee_transitions: usize,
        signers_per_update: usize,
    },
    /// Replay the fixture natively and compute the outputs to expect.
    RunNative,
    /// Pack and encode the proof inputs.
    EncodeInputs,
    /// Connect to the prover and load the program.
    LoadProgram,
    /// Set the program up with the prover, on the clock.
    SetUp,
    /// Read which prover is configured.
    ReadProver,
    /// Execute the program without a proof, on the clock.
    Execute,
    /// Forget the span durations gathered so far.
    ClearTimings,
    /// Make a proof, and keep it in place of the one before.
    Prove(SyntheticProofMode),
    /// Hand over the span durations.
    ReadTimings,
    /// Decode the public outputs of the last proof.
    DecodeOutputs,
    /// Verify the last proof, on the clock.
    Verify,
    /// Measure the byte encoding of the last proof.
    MeasureProof,
    /// Make one compressed proof besides.
    ProveCompressed,
    /// Measure the encoding of the compressed proof.
    MeasureCompressed,
    /// Verify the compressed proof, on the clock.
    VerifyCompressed,
    /// Append a line to the report.
    Append(BenchmarkRecord),
    /// There is nothing left to do.
    Finish,
    /// Give the run up.
    Stop(BenchmarkError),
}

/// The answer to an action.
pub enum Event {
    Signers { effective: usize, committee_size: usize },
    Done,
    Elapsed(u128),
    Outputs(SyntheticProofOutputs),
    Prover(Option<String>),
    Executed { elapsed_us: u128, total_instructions: u64, gas: Option<u64> },
    Timings(SpanTimings),
    Size(usize),
    Failed,
}

/// What has been measured so far; zero or absent where nothing has been yet.
#[derive(Clone, Copy, Debug, PartialEq, Eq)]
pub struct Measurements {
    pub effective_signers: usize,
    pub committee_size: usize,
    pub fixture_us: u128,
    pub expected: Option<SyntheticProofOutputs>,
    pub setup_us: u128,
    pub proof_mode: SyntheticProofMode,
    pub mock: bool,
    pub execute_us: u128,
    pub total_instructions: u64,
    pub gas: u64,
    pub prove_avg: Average,
    pub plonk_span_avg: Average,
    pub wrap_span_avg: Average,
    pub prev_head: u64,
    pub new_head: u64,
    pub updates_processed: u64,
    pub verify_avg: Average,
    pub proof_bytes: usize,
    pub compressed_proof_bytes: usize,
    pub compressed_verify_us: u128,
}

/// The state of a session.
#[verifier::ext_equal]
pub struct SessionView {
    pub plan: RunPlan,
    pub phase: Phase,
    pub measured: Measurements,
    pub verify_times: Seq<u128>,
}

impl Measurements {
    /// Whether the proofs of the run are verified: those of a mode that supports it, and all those
    /// of the mock prover.
    pub open spec fn verifies(self) -> bool {
        self.proof_mode.verifiable() || self.mock
    }
}

impl SessionView {
    /// The same session in another phase.
    pub open spec fn to(self, phase: Phase) -> SessionView {
        SessionView { phase, ..self }
    }

    /// The same session with other measurements.
    pub open spec fn with(self, measured: Measurements) -> SessionView {
        SessionView { measured, ..self }
    }

    /// The same session, given up.
    pub open spec fn stop(self, error: BenchmarkError) -> SessionView {
        self.to(Phase::Stopped(error))
    }

    /// Whether nothing more happens in this session.
    pub open spec fn ended(self) -> bool {
        self.phase is Finished || self.phase is Stopped
    }
}

/// No measurements.
pub open spec fn nothing_measured() -> Measurements {
    let none = Average { total: 0, count: 0 };
    Measurements {
        effective_signers: 0,
        committee_size: 0,
        fixture_us: 0,
        expected: None,
        setup_us: 0,
        proof_mode: SyntheticProofMode::Plonk,
        mock: false,
        execute_us: 0,
        total_instructions: 0,
        gas: 0,
        prove_avg: none,
        plonk_span_avg: none,
        wrap_span_avg: none,
        prev_head: 0,
        new_head: 0,
        updates_processed: 0,
        verify_avg: none,
        proof_bytes: 0,
        compressed_proof_bytes: 0,
        compressed_verify_us: 0,
    }
}

/// A session at its start.
pub open spec fn initial(plan: RunPlan) -> SessionView {
    SessionView {
        plan,
        phase: Phase::Signers,
        measured: nothing_measured(),
        verify_times: Seq::empty(),
    }
}

/// The line to report in the end.
pub open spec fn record_of(plan: RunPlan, m: Measurements) -> BenchmarkRecord {
    BenchmarkRecord {
        mode: plan.preset.run_mode(),
        committee_size: m.committee_size,
        initial_slot: plan.initial_slot,
        signers_per_update: m.effective_signers,
        committee_transitions: plan.committee_transitions,
        runs: plan.runs,
        fixture_us: m.fixture_us,
        setup_us: m.setup_us,
        prove_avg: m.prove_avg,
        verify_avg: m.verify_avg,
        prev_head: m.prev_head,
        new_head: m.new_head,
        updates_processed: m.updates_processed,
        proof_bytes: m.proof_bytes,
        total_instructions: m.total_instructions,
        gas: m.gas,
        execute_us: m.execute_us,
        compressed_proof_bytes: m.compressed_proof_bytes,
        compressed_verify_us: m.compressed_verify_us,
        plonk_span_avg: m.plonk_span_avg,
        wrap_span_avg: m.wrap_span_avg,
    }
}

/// What a session asks for.
pub open spec fn action_of(s: SessionView) -> Action {
    match s.phase {
        Phase::Signers => Action::ResolveSigners {
            spec: s.plan.preset.nominal(),
            mode: s.plan.preset.run_mode(),
            requested: s.plan.signers_per_update,
        },
        Phase::Fixture => Action::GenerateFixture {
            mode: s.plan.preset.run_mode(),
            initial_slot: s.plan.initial_slot,
            committee_transitions: s.plan.committee_transitions,
            signers_per_update: s.measured.effective_signers,
        },
        Phase::Native => Action::RunNative,
        Phase::Encode => Action::EncodeInputs,
        Phase::Load => Action::LoadProgram,
        Phase::SetUp => Action::SetUp,
        Phase::Prover => Action::ReadProver,
        Phase::Execute => Action::Execute,
        Phase::Clear => Action::ClearTimings,
        Phase::Proving { done } => Action::Prove(s.measured.proof_mode),
        Phase::Timings => Action::ReadTimings,
        Phase::Decode => Action::DecodeOutputs,
        Phase::Verifying { done } => Action::Verify,
        Phase::ProofSize => Action::MeasureProof,
        Phase::CompressedProof => Action::ProveCompressed,
        Phase::CompressedSize => Action::MeasureCompressed,
        Phase::CompressedVerify => Action::VerifyCompressed,
        Phase::Append => Action::Append(record_of(s.plan, s.measured)),
        Phase::Finished => Action::Finish,
        Phase::Stopped(error) => Action::Stop(error),
    }
}

/// Why a run is given up when the action of a phase fails. Actions that cannot fail are not
/// answered so.
pub open spec fn failure_in(phase: Phase) -> BenchmarkError {
    match phase {
        Phase::Fixture => BenchmarkError::Fixture,
        Phase::Native => BenchmarkError::Native,
        Phase::Encode => BenchmarkError::Encode,
        Phase::Load => BenchmarkError::Load,
        Phase::SetUp => BenchmarkError::SetUp,
        Phase::Execute => BenchmarkError::Execute,
        Phase::Proving { done } => BenchmarkError::Prove,
        Phase::Decode => BenchmarkError::Decode,
        Phase::Verifying { done } => BenchmarkError::Verify,
        Phase::CompressedProof => BenchmarkError::CompressedProof,
        Phase::CompressedSize => BenchmarkError::CompressedSize,
        Phase::CompressedVerify => BenchmarkError::CompressedVerify,
        Phase::Append => BenchmarkError::Append,
        _ => BenchmarkError::OutOfOrder,
    }
}

/// A session whose measurements are complete: it averages the verification times and reports.
pub open spec fn concluded(s: SessionView) -> SessionView {
    match average_us(s.verify_times) {
        Some(verify_avg) => s.with(Measurements { verify_avg, ..s.measured }).to(Phase::Append),
        None => s.stop(BenchmarkError::DurationOverflow),
    }
}

/// A session that has verified its proofs: Plonk proofs are measured further, others are not.
pub open spec fn verified(s: SessionView) -> SessionView {
    if s.measured.proof_mode.has_plonk_bytes() {
        s.to(Phase::ProofSize)
    } else {
        concluded(s)
    }
}

/// A session that has read the span durations.
pub open spec fn timed(s: SessionView, timings: SpanTimings) -> SessionView {
    match (
        average_us(timings.prove@),
        average_us(timings.plonk@),
        average_us(timings.wrap@),
    ) {
        (Some(prove_avg), Some(plonk_span_avg), Some(wrap_span_avg)) => {
            let t = s.with(Measurements { prove_avg, plonk_span_avg, wrap_span_avg, ..s.measured });
            if s.plan.runs == 0 {
                t.stop(BenchmarkError::NoRuns)
            } else {
                t.to(Phase::Decode)
            }
        },
        _ => s.stop(BenchmarkError::DurationOverflow),
    }
}

/// A session that has decoded the outputs of the last proof.
pub open spec fn decoded(s: SessionView, outputs: SyntheticProofOutputs) -> SessionView {
    if s.measured.expected matches Some(expected) && outputs@ == expected@ {
        let t = s.with(
            Measurements {
                prev_head: outputs.prev_head,
                new_head: outputs.new_head,
                updates_processed: outputs.updates_processed,
                ..s.measured
            },
        );
        if s.measured.verifies() {
            t.to(Phase::Verifying { done: 0 })
        } else {
            verified(SessionView { verify_times: Seq::new(s.plan.runs as nat, |i: int| 0u128), ..t })
        }
    } else {
        s.stop(BenchmarkError::Diverged)
    }
}

/// The session after an event. A session that has ended stays as it is, and an event that does not
/// answer the action asked for ends the session.
pub open spec fn step(s: SessionView, event: Event) -> SessionView {
    let m = s.measured;
    match (s.phase, event) {
        (Phase::Finished, _) => s,
        (Phase::Stopped(_), _) => s,
        (phase, Event::Failed) => s.stop(failure_in(phase)),
        (Phase::Signers, Event::Signers { effective, committee_size }) => s.with(
            Measurements { effective_signers: effective, committee_size, ..m },
        ).to(Phase::Fixture),
        (Phase::Fixture, Event::Elapsed(us)) => s.with(
            Measurements { fixture_us: us, ..m },
        ).to(Phase::Native),
        (Phase::Native, Event::Outputs(outputs)) => s.with(
            Measurements { expected: Some(outputs), ..m },
        ).to(Phase::Encode),
        (Phase::Encode, Event::Done) => s.to(Phase::Load),
        (Phase::Load, Event::Done) => s.to(Phase::SetUp),
        (Phase::SetUp, Event::Elapsed(us)) => s.with(Measurements { setup_us: us, ..m }).to(
            Phase::Prover,
        ),
        (Phase::Prover, Event::Prover(prover)) => s.with(
            Measurements {
                proof_mode: proof_mode_for(prover_name(prover)),
                mock: is_mock(prover_name(prover)),
                ..m
            },
        ).to(Phase::Execute),
        (Phase::Execute, Event::Executed { elapsed_us, total_instructions, gas }) => s.with(
            Measurements {
                execute_us: elapsed_us,
                total_instructions,
                gas: match gas {
                    Some(used) => used,
                    None => 0,
                },
                ..m
            },
        ).to(Phase::Clear),
        (Phase::Clear, Event::Done) => s.to(
            if s.plan.runs == 0 {
                Phase::Timings
            } else {
                Phase::Proving { done: 0 }
            },
        ),
        (Phase::Proving { done }, Event::Done) => s.to(
            if done + 1 < s.plan.runs {
                Phase::Proving { done: (done + 1) as usize }
            } else {
                Phase::Timings
            },
        ),
        (Phase::Timings, Event::Timings(timings)) => timed(s, timings),
        (Phase::Decode, Event::Outputs(outputs)) => decoded(s, outputs),
        (Phase::Verifying { done }, Event::Elapsed(us)) => {
            let t = SessionView { verify_times: s.verify_times.push(us), ..s };
            if done + 1 < s.plan.runs {
                t.to(Phase::Verifying { done: (done + 1) as usize })
            } else {
                verified(t)
            }
        },
        (Phase::ProofSize, Event::Size(bytes)) => s.with(
            Measurements { proof_bytes: bytes, ..m },
        ).to(Phase::CompressedProof),
        (Phase::CompressedProof, Event::Done) => s.to(Phase::CompressedSize),
        (Phase::CompressedSize, Event::Size(bytes)) => s.with(
            Measurements { compressed_proof_bytes: bytes, ..m },
        ).to(Phase::CompressedVerify),
        (Phase::CompressedVerify, Event::Elapsed(us)) => concluded(
            s.with(Measurements { compressed_verify_us: us, ..m }),
        ),
        (Phase::Append, Event::Done) => s.to(Phase::Finished),
        _ => s.stop(BenchmarkError::OutOfOrder),
    }
}

/// The name of the configured prover.
pub open spec fn prover_name(prover: Option<String>) -> Option<Seq<char>> {
    match prover {
        Some(name) => Some(name@),
        None => None,
    }
}

/// Whether a phase comes before the first verification.
pub open spec fn before_verification(phase: Phase) -> bool {
    match phase {
        Phase::Verifying { done } => false,
        Phase::ProofSize => false,
        Phase::CompressedProof => false,
        Phase::CompressedSize => false,
        Phase::CompressedVerify => false,
        Phase::Append => false,
        Phase::Finished => false,
        Phase::Stopped(_) => false,
        _ => true,
    }
}

/// Whether the counters of a session are in order: no proof and no verification is begun beyond the
/// number of runs, outputs are decoded only where there is a proof, and every finished verification
/// has left its time.
pub open spec fn counters_ok(s: SessionView) -> bool {
    &&& before_verification(s.phase) ==> s.verify_times.len() == 0
    &&& s.phase is Decode ==> s.plan.runs > 0
    &&& s.phase matches Phase::Proving { done } ==> done < s.plan.runs
    &&& s.phase matches Phase::Verifying { done } ==> done < s.plan.runs && s.verify_times.len()
        == done
}

/// A run in progress.
pub struct Session {
    plan: RunPlan,
    phase: Phase,
    measured: Measurements,
    verify_times: Vec<u128>,
}

impl View for Session {
    type V = SessionView;

    closed spec fn view(&self) -> SessionView {
        SessionView {
            plan: self.plan,
            phase: self.phase,
            measured: self.measured,
            verify_times: self.verify_times@,
        }
    }
}

/// The plan for some arguments, if they name a spec.
pub open spec fn planned<P: ?Sized>(args: BenchmarkArgs<P>) -> Option<RunPlan> {
    match named_spec(args.spec_name@) {
        Some(spec) => Some(
            RunPlan {
                preset: preset_for(spec, args.mode),
                committee_transitions: args.committee_transitions,
                initial_slot: args.initial_slot,
                signers_per_update: args.signers_per_update,
                runs: args.runs,
            },
        ),
        None => None,
    }
}

/// A plan keeps to its arguments: it is made for the spec and the mode that they name.
pub proof fn law_plans_keep_to_their_arguments<P: ?Sized>(args: BenchmarkArgs<P>, plan: RunPlan)
    requires
        planned(args) == Some(plan),
    ensures
        spec_name(plan.preset.nominal()) == args.spec_name@,
        plan.preset.run_mode() == args.mode,
        plan.preset is Minimal || plan.preset is SimplifiedMinimal <==> args.spec_name@
            == "minimal"@,
        plan.preset is Minimal || plan.preset is Mainnet <==> args.mode is Strict,
        plan.committee_transitions == args.committee_transitions,
        plan.initial_slot == args.initial_slot,
        plan.signers_per_update == args.signers_per_update,
        plan.runs == args.runs,
{
    law_spec_names(plan.preset.nominal(), args.spec_name@);
    law_names_mean_what_they_say(args.spec_name@);
}

/// There is a plan for the specs `minimal` and `mainnet`, and for no others.
pub proof fn law_known_specs_are_planned<P: ?Sized>(args: BenchmarkArgs<P>)
    ensures
        planned(args) is Some <==> args.spec_name@ == "minimal"@ || args.spec_name@ == "mainnet"@,
{
}

/// Every error has its message, and those that come with a detail end in it.
pub proof fn law_messages_say_what_went_wrong(error: BenchmarkError, detail: Seq<char>)
    ensures
        ({
            let text = error_text(error, detail);
            &&& error is UnknownSpec ==> text == "spec must be one of: minimal, mainnet"@
            &&& error is Fixture ==> text == "failed to generate synthetic fixture: "@ + detail
            &&& error is Native ==> text == "native benchmark run failed: "@ + detail
            &&& error is Encode ==> text == "failed to encode synthetic proof inputs"@
            &&& error is Load ==> text == "failed to read synthetic benchmark ELF at "@ + detail
            &&& error is SetUp ==> text == "failed to set up synthetic benchmark program"@
            &&& error is Execute ==> text == "execute() for metrics collection failed"@
            &&& error is Prove ==> text == "synthetic update proof failed"@
            &&& error is NoRuns ==> text == "runs must be greater than zero"@
            &&& error is Decode ==> text == "failed to decode synthetic proof public values"@
            &&& error is Diverged ==> text == "proof outputs diverged from native benchmark run"@
            &&& error is Verify ==> text == "synthetic update proof verification failed"@
            &&& error is CompressedProof ==> text == "compressed proof failed"@
            &&& error is CompressedSize ==> text == "serialized_size on compressed proof failed"@
            &&& error is CompressedVerify ==> text == "compressed proof verification failed"@
            &&& error is Append ==> text == detail
            &&& error is DurationOverflow ==> text == "attempt to add with overflow"@
            &&& error is OutOfOrder ==> text == "benchmark step answered out of order"@
        }),
{
}

/// Begins a run: picks the preset that the arguments name and opens a session for it. Arguments
/// that name no spec are turned down.
pub fn run<P: ?Sized>(args: &BenchmarkArgs<P>) -> (session: Result<Session, BenchmarkError>)
    ensures
        match planned(*args) {
            Some(plan) => session matches Ok(s) && s@ == initial(plan),
            None => session matches Err(e) && e == BenchmarkError::UnknownSpec,
        },
        session is Ok <==> args.spec_name@ == "minimal"@ || args.spec_name@ == "mainnet"@,
        session matches Err(e) ==> e is UnknownSpec,
        session matches Ok(s) ==> {
            let plan = s@.plan;
            &&& plan.preset is Minimal || plan.preset is SimplifiedMinimal <==> args.spec_name@
                == "minimal"@
            &&& plan.preset is Minimal || plan.preset is Mainnet <==> args.mode is Strict
            &&& plan.committee_transitions == args.committee_transitions
            &&& plan.initial_slot == args.initial_slot
            &&& plan.signers_per_update == args.signers_per_update
            &&& plan.runs == args.runs
        },
{
    proof {
        law_names_mean_what_they_say(args.spec_name@);
    }
    match select_preset(args.spec_name, args.mode) {
        Some(preset) => Ok(
            Session::start(
                RunPlan {
                    preset,
                    committee_transitions: args.committee_transitions,
                    initial_slot: args.initial_slot,
                    signers_per_update: args.signers_per_update,
                    runs: args.runs,
                },
            ),
        ),
        None => Err(BenchmarkError::UnknownSpec),
    }
}

impl Session {
    #[verifier::type_invariant]
    spec fn counters_in_order(self) -> bool {
        counters_ok(self@)
    }

    /// A session at its start.
    fn start(plan: RunPlan) -> (session: Session)
        ensures
            session@ == initial(plan),
    {
        let none: Average = Average { total: 0, count: 0 };
        let measured: Measurements = Measurements {
            effective_signers: 0,
            committee_size: 0,
            fixture_us: 0,
            expected: None,
            setup_us: 0,
            proof_mode: SyntheticProofMode::Plonk,
            mock: false,
            execute_us: 0,
            total_instructions: 0,
            gas: 0,
            prove_avg: none,
            plonk_span_avg: none,
            wrap_span_avg: none,
            prev_head: 0,
            new_head: 0,
            updates_processed: 0,
            verify_avg: none,
            proof_bytes: 0,
            compressed_proof_bytes: 0,
            compressed_verify_us: 0,
        };
        Session { plan, phase: Phase::Signers, measured, verify_times: Vec::new() }
    }

    /// The preset that is run.
    pub fn preset(&self) -> (preset: ConsensusPreset)
        ensures
            preset == self@.plan.preset,
    {
        self.plan.preset
    }

    /// The name of the spec that is run, for the report.
    pub fn spec_name(&self) -> (name: &'static str)
        ensures
            name@ == spec_name(self@.plan.preset.nominal()),
            self@.plan.preset is Minimal || self@.plan.preset is SimplifiedMinimal ==> name@
                == "minimal"@,
            self@.plan.preset is Mainnet || self@.plan.preset is SimplifiedMainnet ==> name@
                == "mainnet"@,
    {
        spec_label(self.plan.preset.nominal_spec())
    }

    /// The line to report.
    fn record(&self) -> (record: BenchmarkRecord)
        ensures
            record == record_of(self@.plan, self@.measured),
    {
        let m: &Measurements = &self.measured;
        BenchmarkRecord {
            mode: self.plan.preset.mode(),
            committee_size: m.committee_size,
            initial_slot: self.plan.initial_slot,
            signers_per_update: m.effective_signers,
            committee_transitions: self.plan.committee_transitions,
            runs: self.plan.runs,
            fixture_us: m.fixture_us,
            setup_us: m.setup_us,
            prove_avg: m.prove_avg,
            verify_avg: m.verify_avg,
            prev_head: m.prev_head,
            new_head: m.new_head,
            updates_processed: m.updates_processed,
            proof_bytes: m.proof_bytes,
            total_instructions: m.total_instructions,
            gas: m.gas,
            execute_us: m.execute_us,
            compressed_proof_bytes: m.compressed_proof_bytes,
            compressed_verify_us: m.compressed_verify_us,
            plonk_span_avg: m.plonk_span_avg,
            wrap_span_avg: m.wrap_span_avg,
        }
    }

    /// What to do next.
    pub fn action(&self) -> (action: Action)
        ensures
            action == action_of(self@),
    {
        match self.phase {
            Phase::Signers => Action::ResolveSigners {
                spec: self.plan.preset.nominal_spec(),
                mode: self.plan.preset.mode(),
                requested: self.plan.signers_per_update,
            },
            Phase::Fixture => Action::GenerateFixture {
                mode: self.plan.preset.mode(),
                initial_slot: self.plan.initial_slot,
                committee_transitions: self.plan.committee_transitions,
                signers_per_update: self.measured.effective_signers,
            },
            Phase::Native => Action::RunNative,
            Phase::Encode => Action::EncodeInputs,
            Phase::Load => Action::LoadProgram,
            Phase::SetUp => Action::SetUp,
            Phase::Prover => Action::ReadProver,
            Phase::Execute => Action::Execute,
            Phase::Clear => Action::ClearTimings,
            Phase::Proving { .. } => Action::Prove(self.measured.proof_mode),
            Phase::Timings => Action::ReadTimings,
            Phase::Decode => Action::DecodeOutputs,
            Phase::Verifying { .. } => Action::Verify,
            Phase::ProofSize => Action::MeasureProof,
            Phase::CompressedProof => Action::ProveCompressed,
            Phase::CompressedSize => Action::MeasureCompressed,
            Phase::CompressedVerify => Action::VerifyCompressed,
            Phase::Append => Action::Append(self.record()),
            Phase::Finished => Action::Finish,
            Phase::Stopped(error) => Action::Stop(error),
        }
    }

    /// Averages the verification times and goes on to report, or gives up where their sum is too
    /// large.
    fn conclude(self) -> (next: Session)
        ensures
            next@ == concluded(self@),
    {
        match avg(self.verify_times.as_slice()) {
            Some(verify_avg) => Session {
                phase: Phase::Append,
                measured: Measurements { verify_avg, ..self.measured },
                ..self
            },
            None => Session { phase: Phase::Stopped(BenchmarkError::DurationOverflow), ..self },
        }
    }

    /// Goes on once the proofs are verified.
    fn after_verification(self) -> (next: Session)
        ensures
            next@ == verified(self@),
    {
        if self.measured.proof_mode.requires_plonk_bytes() {
            Session { phase: Phase::ProofSize, ..self }
        } else {
            self.conclude()
        }
    }

    /// Goes on once the span durations are read.
    fn after_timings(self, timings: &SpanTimings) -> (next: Session)
        requires
            self@.phase is Timings,
        ensures
            next@ == timed(self@, *timings),
    {
        proof {
            use_type_invariant(&self);
        }
        match (
            avg(timings.prove.as_slice()),
            avg(timings.plonk.as_slice()),
            avg(timings.wrap.as_slice()),
        ) {
            (Some(prove_avg), Some(plonk_span_avg), Some(wrap_span_avg)) => Session {
                phase: if self.plan.runs == 0 {
                    Phase::Stopped(BenchmarkError::NoRuns)
                } else {
                    Phase::Decode
                },
                measured: Measurements {
                    prove_avg,
                    plonk_span_avg,
                    wrap_span_avg,
                    ..self.measured
                },
                ..self
            },
            _ => Session { phase: Phase::Stopped(BenchmarkError::DurationOverflow), ..self },
        }
    }

    /// Goes on once the outputs of the last proof are decoded.
    fn after_decoding(self, outputs: &SyntheticProofOutputs) -> (next: Session)
        requires
            self@.phase is Decode,
        ensures
            next@ == decoded(self@, *outputs),
    {
        proof {
            use_type_invariant(&self);
        }
        let agreed: bool = match &self.measured.expected {
            Some(expected) => outputs.same(expected),
            None => false,
        };
        if !agreed {
            return Session { phase: Phase::Stopped(BenchmarkError::Diverged), ..self };
        }
        let measured: Measurements = Measurements {
            prev_head: outputs.prev_head,
            new_head: outputs.new_head,
            updates_processed: outputs.updates_processed,
            ..self.measured
        };
        if self.measured.proof_mode.requires_verification() || self.measured.mock {
            Session { phase: Phase::Verifying { done: 0 }, measured, ..self }
        } else {
            let verify_times: Vec<u128> = vec![0u128; self.plan.runs];
            assert(verify_times@ =~= Seq::new(self.plan.runs as nat, |i: int| 0u128));
            let next: Session = Session {
                phase: Phase::ProofSize,
                measured,
                verify_times,
                ..self
            };
            next.after_verification()
        }
    }

    /// Takes the answer to the action asked for and goes on.
    pub fn advance(self, event: Event) -> (next: Session)
        ensures
            next@ == step(self@, event),
    {
        proof {
            use_type_invariant(&self);
        }
        let runs: usize = self.plan.runs;
        let m: Measurements = self.measured;
        match (self.phase, event) {
            (Phase::Finished, _) => self,
            (Phase::Stopped(_), _) => self,
            (phase, Event::Failed) => Session { phase: Phase::Stopped(failure(phase)), ..self },
            (Phase::Signers, Event::Signers { effective, committee_size }) => Session {
                phase: Phase::Fixture,
                measured: Measurements { effective_signers: effective, committee_size, ..m },
                ..self
            },
            (Phase::Fixture, Event::Elapsed(us)) => Session {
                phase: Phase::Native,
                measured: Measurements { fixture_us: us, ..m },
                ..self
            },
            (Phase::Native, Event::Outputs(outputs)) => Session {
                phase: Phase::Encode,
                measured: Measurements { expected: Some(outputs), ..m },
                ..self
            },
            (Phase::Encode, Event::Done) => Session { phase: Phase::Load, ..self },
            (Phase::Load, Event::Done) => Session { phase: Phase::SetUp, ..self },
            (Phase::SetUp, Event::Elapsed(us)) => Session {
                phase: Phase::Prover,
                measured: Measurements { setup_us: us, ..m },
                ..self
            },
            (Phase::Prover, Event::Prover(prover)) => {
                let name: Option<&str> = match &prover {
                    Some(name) => Some(name.as_str()),
                    None => None,
                };
                let proof_mode: SyntheticProofMode = selected_proof_mode(name);
                let mock: bool = is_mock_prover(name);
                Session {
                    phase: Phase::Execute,
                    measured: Measurements { proof_mode, mock, ..m },
                    ..self
                }
            },
            (Phase::Execute, Event::Executed { elapsed_us, total_instructions, gas }) => {
                let gas: u64 = match gas {
                    Some(used) => used,
                    None => 0,
                };
                Session {
                    phase: Phase::Clear,
                    measured: Measurements { execute_us: elapsed_us, total_instructions, gas, ..m },
                    ..self
                }
            },
            (Phase::Clear, Event::Done) => Session {
                phase: if runs == 0 {
                    Phase::Timings
                } else {
                    Phase::Proving { done: 0 }
                },
                ..self
            },
            (Phase::Proving { done }, Event::Done) => Session {
                phase: if done + 1 < runs {
                    Phase::Proving { done: done + 1 }
                } else {
                    Phase::Timings
                },
                ..self
            },
            (Phase::Timings, Event::Timings(timings)) => self.after_timings(&timings),
            (Phase::Decode, Event::Outputs(outputs)) => self.after_decoding(&outputs),
            (Phase::Verifying { done }, Event::Elapsed(us)) => {
                let mut verify_times: Vec<u128> = self.verify_times;
                verify_times.push(us);
                if done + 1 < runs {
                    Session { phase: Phase::Verifying { done: done + 1 }, verify_times, ..self }
                } else {
                    let next: Session = Session { phase: Phase::ProofSize, verify_times, ..self };
                    next.after_verification()
                }
            },
            (Phase::ProofSize, Event::Size(bytes)) => Session {
                phase: Phase::CompressedProof,
                measured: Measurements { proof_bytes: bytes, ..m },
                ..self
            },
            (Phase::CompressedProof, Event::Done) => Session {
                phase: Phase::CompressedSize,
                ..self
            },
            (Phase::CompressedSize, Event::Size(bytes)) => Session {
                phase: Phase::CompressedVerify,
                measured: Measurements { compressed_proof_bytes: bytes, ..m },
                ..self
            },
            (Phase::CompressedVerify, Event::Elapsed(us)) => {
                let next: Session = Session {
                    measured: Measurements { compressed_verify_us: us, ..m },
                    ..self
                };
                next.conclude()
            },
            (Phase::Append, Event::Done) => Session { phase: Phase::Finished, ..self },
            _ => Session { phase: Phase::Stopped(BenchmarkError::OutOfOrder), ..self },
        }
    }
}

/// Why a run is given up when the action of a phase fails.
fn failure(phase: Phase) -> (error: BenchmarkError)
    ensures
        error == failure_in(phase),
{
    match phase {
        Phase::Fixture => BenchmarkError::Fixture,
        Phase::Native => BenchmarkError::Native,
        Phase::Encode => BenchmarkError::Encode,
        Phase::Load => BenchmarkError::Load,
        Phase::SetUp => BenchmarkError::SetUp,
        Phase::Execute => BenchmarkError::Execute,
        Phase::Proving { .. } => BenchmarkError::Prove,
        Phase::Decode => BenchmarkError::Decode,
        Phase::Verifying { .. } => BenchmarkError::Verify,
        Phase::CompressedProof => BenchmarkError::CompressedProof,
        Phase::CompressedSize => BenchmarkError::CompressedSize,
        Phase::CompressedVerify => BenchmarkError::CompressedVerify,
        Phase::Append => BenchmarkError::Append,
        _ => BenchmarkError::OutOfOrder,
    }
}

} // verus!
