//! What holds of a run from its start to its end.
//!
//! A course is the session that some sequence of events leads to from the start of a run. The
//! proofs here follow a course event by event.

use vstd::prelude::*;

use crate::mode::law_names_mean_what_they_say;
use crate::outputs::law_outputs_agree_in_every_field;
use crate::proof_mode::{is_mock, proof_mode_for, SyntheticProofMode};
use crate::session::{
    action_of, before_verification, counters_ok, failure_in, initial,
    law_plans_keep_to_their_arguments, planned, prover_name, record_of, step, Action, BenchmarkArgs,
    BenchmarkError, Event, Phase, RunPlan, SessionView,
};
use crate::spans::{average_us, total_us};

verus! {

/// The session that some events lead to from the start of a run.
pub open spec fn course(plan: RunPlan, events: Seq<Event>) -> SessionView
    decreases events.len(),
{
    if events.len() == 0 {
        initial(plan)
    } else {
        step(course(plan, events.drop_last()), events.last())
    }
}

/// One, if something holds.
pub open spec fn one_if(holds: bool) -> nat {
    if holds {
        1
    } else {
        0
    }
}

/// How many of the actions answered in a course are of a kind.
pub open spec fn answered(plan: RunPlan, events: Seq<Event>, kind: spec_fn(Action) -> bool) -> nat
    decreases events.len(),
{
    if events.len() == 0 {
        0
    } else {
        let before = events.drop_last();
        answered(plan, before, kind) + one_if(kind(action_of(course(plan, before))))
    }
}

/// How many events it takes to get to a session that has not stopped.
pub open spec fn position(s: SessionView) -> int {
    let runs = s.plan.runs as int;
    match s.phase {
        Phase::Signers => 0,
        Phase::Fixture => 1,
        Phase::Native => 2,
        Phase::Encode => 3,
        Phase::Load => 4,
        Phase::SetUp => 5,
        Phase::Prover => 6,
        Phase::Execute => 7,
        Phase::Clear => 8,
        Phase::Proving { done } => 9 + done,
        Phase::Timings => 9 + runs,
        Phase::Decode => 10 + runs,
        Phase::Verifying { done } => 11 + runs + done,
        Phase::ProofSize => 11 + 2 * runs,
        Phase::CompressedProof => 12 + 2 * runs,
        Phase::CompressedSize => 13 + 2 * runs,
        Phase::CompressedVerify => 14 + 2 * runs,
        Phase::Append => length(s) - 1,
        Phase::Finished => length(s),
        Phase::Stopped(_) => -1,
    }
}

/// How many events a run that finishes takes in all.
pub open spec fn length(s: SessionView) -> int {
    if s.measured.proof_mode is Plonk {
        16 + 2 * s.plan.runs
    } else if s.measured.verifies() {
        12 + 2 * s.plan.runs
    } else {
        12 + s.plan.runs
    }
}

/// Whether the modes and counters of a session fit its phase.
pub open spec fn orderly(s: SessionView) -> bool {
    let plonk = s.measured.proof_mode is Plonk;
    let runs = s.plan.runs;
    &&& counters_ok(s)
    &&& !(s.measured.proof_mode is Compressed)
    &&& s.measured.mock ==> s.measured.proof_mode is Core
    &&& match s.phase {
        Phase::Verifying { done } => s.measured.verifies(),
        Phase::ProofSize => plonk && runs > 0 && s.verify_times.len() == runs,
        Phase::CompressedProof => plonk && runs > 0 && s.verify_times.len() == runs,
        Phase::CompressedSize => plonk && runs > 0 && s.verify_times.len() == runs,
        Phase::CompressedVerify => plonk && runs > 0 && s.verify_times.len() == runs,
        Phase::Append => runs > 0 && s.verify_times.len() == runs,
        Phase::Finished => runs > 0 && s.verify_times.len() == runs,
        _ => true,
    }
}

/// Every event keeps a session orderly.
pub proof fn law_sessions_stay_orderly(s: SessionView, event: Event)
    requires
        orderly(s),
    ensures
        orderly(step(s, event)),
        step(s, event).plan == s.plan,
{
}

/// The sessions in a course are orderly and follow its plan.
proof fn lemma_course_is_orderly(plan: RunPlan, events: Seq<Event>)
    ensures
        orderly(course(plan, events)),
        course(plan, events).plan == plan,
    decreases events.len(),
{
    if events.len() > 0 {
        lemma_course_is_orderly(plan, events.drop_last());
        law_sessions_stay_orderly(course(plan, events.drop_last()), events.last());
    }
}

/// Once a run has finished or stopped, no event changes it any more.
pub proof fn law_ended_runs_stay(s: SessionView, event: Event)
    requires
        s.ended(),
    ensures
        step(s, event) == s,
        action_of(s) is Finish || action_of(s) is Stop,
{
}

/// An action that fails stops the run there and then, with the error of that action; nothing
/// that was measured is touched.
pub proof fn law_failure_stops(s: SessionView)
    requires
        !s.ended(),
    ensures
        step(s, Event::Failed) == s.stop(failure_in(s.phase)),
        action_of(step(s, Event::Failed)) == Action::Stop(failure_in(s.phase)),
{
}

/// Whether an event is what a session hopes for: the answer to its action, without a failure, with
/// sums that can be held, with at least one run, and with the outputs that are expected.
pub open spec fn welcome(s: SessionView, event: Event) -> bool {
    match (s.phase, event) {
        (Phase::Signers, Event::Signers { effective, committee_size }) => true,
        (Phase::Fixture, Event::Elapsed(us)) => true,
        (Phase::Native, Event::Outputs(outputs)) => true,
        (Phase::Encode, Event::Done) => true,
        (Phase::Load, Event::Done) => true,
        (Phase::SetUp, Event::Elapsed(us)) => true,
        (Phase::Prover, Event::Prover(prover)) => true,
        (Phase::Execute, Event::Executed { elapsed_us, total_instructions, gas }) => true,
        (Phase::Clear, Event::Done) => true,
        (Phase::Proving { done }, Event::Done) => true,
        (Phase::Timings, Event::Timings(timings)) => s.plan.runs > 0 && total_us(timings.prove@)
            <= u128::MAX && total_us(timings.plonk@) <= u128::MAX && total_us(timings.wrap@)
            <= u128::MAX,
        (Phase::Decode, Event::Outputs(outputs)) => s.measured.expected matches Some(expected)
            && outputs@ == expected@,
        (Phase::Verifying { done }, Event::Elapsed(us)) => s.measured.proof_mode is Plonk || done + 1
            < s.plan.runs || total_us(s.verify_times.push(us)) <= u128::MAX,
        (Phase::ProofSize, Event::Size(bytes)) => true,
        (Phase::CompressedProof, Event::Done) => true,
        (Phase::CompressedSize, Event::Size(bytes)) => true,
        (Phase::CompressedVerify, Event::Elapsed(us)) => total_us(s.verify_times) <= u128::MAX,
        (Phase::Append, Event::Done) => true,
        _ => false,
    }
}

/// Zeros sum up to zero.
proof fn lemma_total_of_zeros(n: nat)
    ensures
        total_us(Seq::new(n, |i: int| 0u128)) == 0,
    decreases n,
{
    let zeros = Seq::new(n, |i: int| 0u128);
    if n > 0 {
        assert(zeros.drop_last() =~= Seq::new((n - 1) as nat, |i: int| 0u128));
        lemma_total_of_zeros((n - 1) as nat);
    }
}

/// A run goes on, by exactly one step, if and only if it gets the answer that it hopes for; with
/// any other answer it stops.
pub proof fn law_welcome_events_advance(s: SessionView, event: Event)
    requires
        orderly(s),
        !s.ended(),
    ensures
        welcome(s, event) <==> !(step(s, event).phase is Stopped),
        welcome(s, event) ==> position(step(s, event)) == position(s) + 1,
{
    lemma_total_of_zeros(s.plan.runs as nat);
}

/// Whether every event in a course was welcome when it came.
pub open spec fn clean(plan: RunPlan, events: Seq<Event>) -> bool
    decreases events.len(),
{
    events.len() == 0 || (clean(plan, events.drop_last()) && welcome(
        course(plan, events.drop_last()),
        events.last(),
    ))
}

/// A run that gets nothing but welcome answers never stops, is as many steps along as it got
/// answers, and finishes exactly when it has got them all: `12 + runs` of them for core proofs,
/// `12 + 2 * runs` for those of the mock prover, `16 + 2 * runs` for Plonk proofs.
pub proof fn law_clean_runs_finish(plan: RunPlan, events: Seq<Event>)
    requires
        clean(plan, events),
    ensures
        !(course(plan, events).phase is Stopped),
        position(course(plan, events)) == events.len(),
        course(plan, events).phase is Finished <==> events.len() == length(course(plan, events)),
    decreases events.len(),
{
    if events.len() > 0 {
        let before = events.drop_last();
        law_clean_runs_finish(plan, before);
        lemma_course_is_orderly(plan, before);
        law_welcome_events_advance(course(plan, before), events.last());
    }
    lemma_course_is_orderly(plan, events);
}

/// A run that is still going got nothing but welcome answers.
pub proof fn law_going_runs_are_clean(plan: RunPlan, events: Seq<Event>)
    requires
        !course(plan, events).ended(),
    ensures
        clean(plan, events),
    decreases events.len(),
{
    if events.len() > 0 {
        let before = events.drop_last();
        lemma_course_is_orderly(plan, before);
        if course(plan, before).ended() {
            law_ended_runs_stay(course(plan, before), events.last());
        }
        law_going_runs_are_clean(plan, before);
        law_welcome_events_advance(course(plan, before), events.last());
    }
}

/// The proofs made on the way to a session that has not stopped.
pub open spec fn proofs_made(s: SessionView) -> nat {
    if s.phase is Proving {
        s.phase->Proving_done as nat
    } else if 0 <= position(s) <= 8 {
        0
    } else {
        s.plan.runs as nat
    }
}

/// The verifications made on the way to a session that has not stopped.
pub open spec fn verifications_made(s: SessionView) -> nat {
    if s.phase is Verifying {
        s.phase->Verifying_done as nat
    } else if before_verification(s.phase) || !s.measured.verifies() {
        0
    } else {
        s.plan.runs as nat
    }
}

/// The compressed proofs made on the way to a session that has not stopped.
pub open spec fn compressed_made(s: SessionView) -> nat {
    if s.measured.proof_mode is Plonk && (s.phase is CompressedSize || s.phase is CompressedVerify
        || s.phase is Append || s.phase is Finished) {
        1
    } else {
        0
    }
}

/// Counting the action that a welcome event answers.
proof fn lemma_action_step(s: SessionView, event: Event)
    requires
        orderly(s),
        welcome(s, event),
    ensures
        proofs_made(step(s, event)) == proofs_made(s) + one_if(action_of(s) is Prove),
        verifications_made(step(s, event)) == verifications_made(s) + one_if(
            action_of(s) is Verify,
        ),
        compressed_made(step(s, event)) == compressed_made(s) + one_if(
            action_of(s) is ProveCompressed,
        ),
        step(s, event).phase is Finished <==> action_of(s) is Append,
        action_of(s) is ClearTimings <==> position(s) == 8,
{
    law_welcome_events_advance(s, event);
}

/// Counting the actions of a course that has not stopped.
proof fn lemma_actions(plan: RunPlan, events: Seq<Event>)
    requires
        !(course(plan, events).phase is Stopped),
    ensures
        answered(plan, events, |a: Action| a is Prove) == proofs_made(course(plan, events)),
        answered(plan, events, |a: Action| a is Verify) == verifications_made(
            course(plan, events),
        ),
        answered(plan, events, |a: Action| a is ProveCompressed) == compressed_made(
            course(plan, events),
        ),
        answered(plan, events, |a: Action| a is Append) == one_if(
            course(plan, events).phase is Finished,
        ),
        answered(plan, events, |a: Action| a is ClearTimings) == one_if(
            position(course(plan, events)) > 8,
        ),
    decreases events.len(),
{
    if events.len() > 0 {
        let before = events.drop_last();
        let s = course(plan, before);
        lemma_course_is_orderly(plan, before);
        if s.ended() {
            law_ended_runs_stay(s, events.last());
            lemma_actions(plan, before);
        } else {
            law_welcome_events_advance(s, events.last());
            lemma_actions(plan, before);
            lemma_action_step(s, events.last());
        }
    }
}

/// Whether the measurements of a session that has not ended are those that the events told of: each
/// event in its place, and zero for what the run does not measure.
pub open spec fn told(events: Seq<Event>, s: SessionView) -> bool {
    let m = s.measured;
    let n = events.len() as int;
    let runs = s.plan.runs as int;
    let plonk = m.proof_mode is Plonk;
    &&& n == position(s)
    &&& n > 0 ==> events[0] == Event::Signers {
        effective: m.effective_signers,
        committee_size: m.committee_size,
    }
    &&& n > 1 ==> events[1] == Event::Elapsed(m.fixture_us)
    &&& n > 2 ==> (events[2] matches Event::Outputs(expected) && m.expected == Some(expected))
    &&& n > 5 ==> events[5] == Event::Elapsed(m.setup_us)
    &&& n > 6 ==> (events[6] matches Event::Prover(prover) && m.proof_mode == proof_mode_for(
        prover_name(prover),
    ) && m.mock == is_mock(prover_name(prover)))
    &&& n > 7 ==> (events[7] matches Event::Executed { elapsed_us, total_instructions, gas }
        && m.execute_us == elapsed_us && m.total_instructions == total_instructions && m.gas == (
    match gas {
        Some(used) => used,
        None => 0,
    }))
    &&& n > 9 + runs ==> (events[9 + runs] matches Event::Timings(timings) && Some(m.prove_avg)
        == average_us(timings.prove@) && Some(m.plonk_span_avg) == average_us(timings.plonk@)
        && Some(m.wrap_span_avg) == average_us(timings.wrap@))
    &&& n > 10 + runs ==> (events[10 + runs] matches Event::Outputs(outputs)
        && m.expected matches Some(expected) && outputs@ == expected@ && m.prev_head
        == outputs.prev_head && m.new_head == outputs.new_head && m.updates_processed
        == outputs.updates_processed)
    &&& m.verifies() && n > 10 + runs ==> (forall|i: int|
        #![trigger s.verify_times[i]]
        0 <= i < s.verify_times.len() ==> events[11 + runs + i] == Event::Elapsed(
            s.verify_times[i],
        ))
    &&& !m.verifies() && n > 10 + runs ==> s.verify_times == Seq::new(runs as nat, |i: int| 0u128)
    &&& if plonk && n > 11 + 2 * runs {
        events[11 + 2 * runs] == Event::Size(m.proof_bytes)
    } else {
        m.proof_bytes == 0
    }
    &&& if plonk && n > 13 + 2 * runs {
        events[13 + 2 * runs] == Event::Size(m.compressed_proof_bytes)
    } else {
        m.compressed_proof_bytes == 0
    }
    &&& if plonk && n > 14 + 2 * runs {
        events[14 + 2 * runs] == Event::Elapsed(m.compressed_verify_us)
    } else {
        m.compressed_verify_us == 0
    }
    &&& s.phase is Append ==> Some(m.verify_avg) == average_us(s.verify_times)
}

/// A welcome event is taken down in its place.
proof fn lemma_told_step(events: Seq<Event>, s: SessionView, event: Event)
    requires
        orderly(s),
        told(events, s),
        welcome(s, event),
        !(s.phase is Append),
    ensures
        told(events.push(event), step(s, event)),
{
    let all = events.push(event);
    let t = step(s, event);
    law_welcome_events_advance(s, event);
    assert(all.len() == position(t));
    assert forall|i: int| 0 <= i < events.len() implies all[i] == events[i] by {}
    assert(all[events.len() as int] == event);
}

/// The measurements in a course that has not ended are those that its events told of.
proof fn lemma_told(plan: RunPlan, events: Seq<Event>)
    requires
        !course(plan, events).ended(),
    ensures
        told(events, course(plan, events)),
    decreases events.len(),
{
    if events.len() > 0 {
        let before = events.drop_last();
        let s = course(plan, before);
        lemma_course_is_orderly(plan, before);
        if s.ended() {
            law_ended_runs_stay(s, events.last());
        }
        lemma_told(plan, before);
        law_welcome_events_advance(s, events.last());
        lemma_told_step(before, s, events.last());
        assert(before.push(events.last()) =~= events);
    }
}

/// The line that a run asks to append reports what the run was told, and nothing else: the plan,
/// the durations, sizes and counts of the events in their places, and the exact averages of the
/// span durations and verification times. In particular no line is ever appended for a proof whose
/// outputs differ from those expected.
pub proof fn law_report_is_what_was_measured(plan: RunPlan, events: Seq<Event>)
    requires
        action_of(course(plan, events)) is Append,
    ensures
        action_of(course(plan, events)) == Action::Append(
            record_of(plan, course(plan, events).measured),
        ),
        told(events, course(plan, events)),
        course(plan, events).verify_times.len() == plan.runs,
{
    lemma_course_is_orderly(plan, events);
    lemma_told(plan, events);
}

/// The proofs of one kind made on the way to a session that has not stopped: all of them, if it is
/// the kind that the session measures.
proof fn lemma_proofs_of_mode(plan: RunPlan, events: Seq<Event>, mode: SyntheticProofMode)
    requires
        !(course(plan, events).phase is Stopped),
    ensures
        answered(plan, events, |a: Action| a == Action::Prove(mode)) == (if course(
            plan,
            events,
        ).measured.proof_mode == mode {
            proofs_made(course(plan, events))
        } else {
            0
        }),
    decreases events.len(),
{
    if events.len() > 0 {
        let before = events.drop_last();
        let s = course(plan, before);
        lemma_course_is_orderly(plan, before);
        if s.ended() {
            law_ended_runs_stay(s, events.last());
            lemma_proofs_of_mode(plan, before, mode);
        } else {
            law_welcome_events_advance(s, events.last());
            lemma_proofs_of_mode(plan, before, mode);
            lemma_action_step(s, events.last());
        }
    }
}

/// Counting the actions that go with a Plonk proof, in a course that has not stopped.
proof fn lemma_plonk_actions(plan: RunPlan, events: Seq<Event>)
    requires
        !(course(plan, events).phase is Stopped),
    ensures
        answered(plan, events, |a: Action| a is MeasureProof) == one_if(
            course(plan, events).measured.proof_mode is Plonk && position(course(plan, events)) > 11
                + 2 * plan.runs,
        ),
        answered(plan, events, |a: Action| a is MeasureCompressed) == one_if(
            course(plan, events).measured.proof_mode is Plonk && position(course(plan, events)) > 13
                + 2 * plan.runs,
        ),
        answered(plan, events, |a: Action| a is VerifyCompressed) == one_if(
            course(plan, events).measured.proof_mode is Plonk && position(course(plan, events)) > 14
                + 2 * plan.runs,
        ),
    decreases events.len(),
{
    if events.len() > 0 {
        let before = events.drop_last();
        let s = course(plan, before);
        lemma_course_is_orderly(plan, before);
        lemma_course_is_orderly(plan, events);
        if s.ended() {
            law_ended_runs_stay(s, events.last());
            lemma_plonk_actions(plan, before);
        } else {
            law_welcome_events_advance(s, events.last());
            lemma_plonk_actions(plan, before);
            lemma_plonk_places(s, events.last());
        }
    }
}

/// Where the actions that prepare the proofs stand.
proof fn lemma_preparation_places(s: SessionView, event: Event)
    requires
        orderly(s),
        welcome(s, event),
    ensures
        action_of(s) is GenerateFixture <==> position(s) == 1,
        action_of(s) is RunNative <==> position(s) == 2,
        action_of(s) is SetUp <==> position(s) == 5,
        action_of(s) is Execute <==> position(s) == 7,
{
}

/// Counting the actions that prepare the proofs, in a course that has not stopped.
proof fn lemma_preparation(plan: RunPlan, events: Seq<Event>)
    requires
        !(course(plan, events).phase is Stopped),
    ensures
        answered(plan, events, |a: Action| a is GenerateFixture) == one_if(
            position(course(plan, events)) > 1,
        ),
        answered(plan, events, |a: Action| a is RunNative) == one_if(
            position(course(plan, events)) > 2,
        ),
        answered(plan, events, |a: Action| a is SetUp) == one_if(position(course(plan, events)) > 5),
        answered(plan, events, |a: Action| a is Execute) == one_if(
            position(course(plan, events)) > 7,
        ),
    decreases events.len(),
{
    if events.len() > 0 {
        let before = events.drop_last();
        let s = course(plan, before);
        lemma_course_is_orderly(plan, before);
        if s.ended() {
            law_ended_runs_stay(s, events.last());
            lemma_preparation(plan, before);
        } else {
            law_welcome_events_advance(s, events.last());
            lemma_preparation(plan, before);
            lemma_preparation_places(s, events.last());
        }
    }
}

/// Where the actions that go with a Plonk proof stand.
proof fn lemma_plonk_places(s: SessionView, event: Event)
    requires
        orderly(s),
        welcome(s, event),
    ensures
        ({
            let plonk = s.measured.proof_mode is Plonk;
            let runs = s.plan.runs;
            &&& action_of(s) is MeasureProof <==> plonk && position(s) == 11 + 2 * runs
            &&& action_of(s) is MeasureCompressed <==> plonk && position(s) == 13 + 2 * runs
            &&& action_of(s) is VerifyCompressed <==> plonk && position(s) == 14 + 2 * runs
            &&& position(s) > 10 ==> step(s, event).measured.proof_mode == s.measured.proof_mode
        }),
{
}

/// A run that has finished was asking to append its line when all its events but the last had
/// come, and has changed in nothing but its phase since.
proof fn lemma_finished_from_append(plan: RunPlan, events: Seq<Event>)
    requires
        course(plan, events).phase is Finished,
    ensures
        ({
            let n = length(course(plan, events)) - 1;
            &&& 0 <= n < events.len()
            &&& course(plan, events.take(n)).phase is Append
            &&& course(plan, events) == course(plan, events.take(n)).to(Phase::Finished)
        }),
    decreases events.len(),
{
    lemma_course_is_orderly(plan, events);
    let before = events.drop_last();
    let s = course(plan, before);
    lemma_course_is_orderly(plan, before);
    let n = length(course(plan, events)) - 1;
    if s.ended() {
        law_ended_runs_stay(s, events.last());
        lemma_finished_from_append(plan, before);
        assert(before.take(n) =~= events.take(n));
    } else {
        law_welcome_events_advance(s, events.last());
        law_going_runs_are_clean(plan, before);
        law_clean_runs_finish(plan, before);
        assert(s.phase is Append);
        assert(events.take(n) =~= before);
    }
}

/// The measurements of a run that asks to append its line, or has appended it, are those that its
/// events told of.
proof fn lemma_reported(plan: RunPlan, events: Seq<Event>)
    requires
        course(plan, events).phase is Append || course(plan, events).phase is Finished,
    ensures
        ({
            let s = course(plan, events);
            let n = length(s) - 1;
            &&& 11 + plan.runs <= n <= events.len()
            &&& told(events.take(n), s.to(Phase::Append))
        }),
{
    let s = course(plan, events);
    let n = length(s) - 1;
    lemma_course_is_orderly(plan, events);
    if s.phase is Append {
        lemma_told(plan, events);
        assert(events.take(n) =~= events);
        assert(s.to(Phase::Append) == s);
    } else {
        lemma_finished_from_append(plan, events);
        lemma_told(plan, events.take(n));
        assert(s.to(Phase::Append) == course(plan, events.take(n)));
    }
}

/// A run that finishes generates one fixture, replays it natively once, sets the program up once and
/// executes it once. It makes exactly `runs` proofs, all of the kind that its prover calls for. If
/// they are Plonk proofs, or if the prover is the mock prover, it verifies the last of them `runs`
/// times; if they are Plonk proofs it measures their encoding and makes, measures and verifies one
/// compressed proof besides, and else does none of that. It appends exactly one line to the report.
pub proof fn law_finished_runs_do_all_their_work(plan: RunPlan, events: Seq<Event>)
    requires
        course(plan, events).phase is Finished,
    ensures
        plan.runs > 0,
        events.len() > 6,
        events[6] is Prover,
        ({
            let prover = prover_name(events[6]->Prover_0);
            let mode = proof_mode_for(prover);
            let plonk = mode is Plonk;
            &&& answered(plan, events, |a: Action| a is GenerateFixture) == 1
            &&& answered(plan, events, |a: Action| a is RunNative) == 1
            &&& answered(plan, events, |a: Action| a is SetUp) == 1
            &&& answered(plan, events, |a: Action| a is Execute) == 1
            &&& answered(plan, events, |a: Action| a is Prove) == plan.runs
            &&& answered(plan, events, |a: Action| a == Action::Prove(mode)) == plan.runs
            &&& answered(plan, events, |a: Action| a is Verify) == (if plonk || is_mock(prover) {
                plan.runs as nat
            } else {
                0nat
            })
            &&& answered(plan, events, |a: Action| a is MeasureProof) == one_if(plonk)
            &&& answered(plan, events, |a: Action| a is ProveCompressed) == one_if(plonk)
            &&& answered(plan, events, |a: Action| a is MeasureCompressed) == one_if(plonk)
            &&& answered(plan, events, |a: Action| a is VerifyCompressed) == one_if(plonk)
            &&& answered(plan, events, |a: Action| a is Append) == 1
        }),
        events[6] matches Event::Prover(Some(name)) && name@ == "mock"@ ==> answered(
            plan,
            events,
            |a: Action| a is Verify,
        ) == plan.runs,
{
    let s = course(plan, events);
    lemma_course_is_orderly(plan, events);
    lemma_reported(plan, events);
    assert(events.take(length(s) - 1)[6] == events[6]);
    lemma_actions(plan, events);
    lemma_proofs_of_mode(plan, events, s.measured.proof_mode);
    lemma_plonk_actions(plan, events);
    lemma_preparation(plan, events);
}

/// A run asks to append a line at most once, and a run that stops for any other reason than that
/// this failed, or was answered out of order, has not asked to append anything.
pub proof fn law_stopped_runs_report_nothing(plan: RunPlan, events: Seq<Event>)
    ensures
        answered(plan, events, |a: Action| a is Append) <= 1,
        course(plan, events).phase matches Phase::Stopped(error) ==> error
            == BenchmarkError::Append || error == BenchmarkError::OutOfOrder || answered(
            plan,
            events,
            |a: Action| a is Append,
        ) == 0,
    decreases events.len(),
{
    if !(course(plan, events).phase is Stopped) {
        lemma_actions(plan, events);
    } else if events.len() > 0 {
        let before = events.drop_last();
        let s = course(plan, before);
        law_stopped_runs_report_nothing(plan, before);
        if s.ended() {
            law_ended_runs_stay(s, events.last());
        } else {
            lemma_actions(plan, before);
        }
    }
}

/// Runs are repeatable: two runs that expect the same outputs, whatever else differs between them,
/// report the same heads and the same number of updates; and two whose executions answer with the
/// same instructions and gas report these alike, a missing gas as zero.
pub proof fn law_equal_replays_report_equally(
    plan_a: RunPlan,
    events_a: Seq<Event>,
    plan_b: RunPlan,
    events_b: Seq<Event>,
)
    requires
        course(plan_a, events_a).phase is Append || course(plan_a, events_a).phase is Finished,
        course(plan_b, events_b).phase is Append || course(plan_b, events_b).phase is Finished,
    ensures
        events_a[2] is Outputs && events_b[2] is Outputs,
        events_a[7] is Executed && events_b[7] is Executed,
        ({
            let a = record_of(plan_a, course(plan_a, events_a).measured);
            let b = record_of(plan_b, course(plan_b, events_b).measured);
            &&& events_a[2]->Outputs_0@ == events_b[2]->Outputs_0@ ==> a.prev_head == b.prev_head
                && a.new_head == b.new_head && a.updates_processed == b.updates_processed
            &&& events_a[7]->total_instructions == events_b[7]->total_instructions
                ==> a.total_instructions == b.total_instructions
            &&& events_a[7]->gas == events_b[7]->gas ==> a.gas == b.gas
            &&& events_a[7]->gas is None ==> a.gas == 0
        }),
{
    let s = course(plan_a, events_a);
    let t = course(plan_b, events_b);
    lemma_course_is_orderly(plan_a, events_a);
    lemma_course_is_orderly(plan_b, events_b);
    lemma_reported(plan_a, events_a);
    lemma_reported(plan_b, events_b);
    let told_a = events_a.take(length(s) - 1);
    let told_b = events_b.take(length(t) - 1);
    assert(told_a[2] == events_a[2] && told_a[7] == events_a[7]);
    assert(told_b[2] == events_b[2] && told_b[7] == events_b[7]);
    assert(told_a[10 + plan_a.runs] is Outputs);
    assert(told_b[10 + plan_b.runs] is Outputs);
    let out_a = told_a[10 + plan_a.runs]->Outputs_0;
    let out_b = told_b[10 + plan_b.runs]->Outputs_0;
    assert(out_a@ == events_a[2]->Outputs_0@);
    assert(out_b@ == events_b[2]->Outputs_0@);
    assert(out_a@.prev_head == out_a.prev_head && out_b@.prev_head == out_b.prev_head);
}

/// The span durations are those of the measured proofs alone: they are forgotten before the first
/// of these, and when they are read all `runs` of these have been made and no compressed proof has.
pub proof fn law_timed_proofs_are_isolated(plan: RunPlan, events: Seq<Event>)
    ensures
        action_of(course(plan, events)) is ClearTimings ==> answered(
            plan,
            events,
            |a: Action| a is Prove,
        ) == 0,
        action_of(course(plan, events)) is Prove ==> answered(
            plan,
            events,
            |a: Action| a is ClearTimings,
        ) == 1,
        action_of(course(plan, events)) is ReadTimings ==> {
            &&& answered(plan, events, |a: Action| a is ClearTimings) == 1
            &&& answered(plan, events, |a: Action| a is Prove) == plan.runs
            &&& answered(plan, events, |a: Action| a is ProveCompressed) == 0
        },
{
    lemma_course_is_orderly(plan, events);
    if !(course(plan, events).phase is Stopped) {
        lemma_actions(plan, events);
    }
}

/// What a run asks for depends on its arguments and on the answers so far alone. It asks for the
/// signers that the arguments name, and then for a fixture in the mode of the arguments, from their
/// initial slot, with their transitions and with the signers that it was told; it replays the
/// fixture, encodes it, loads and sets up the program, reads the prover, executes the program and
/// forgets the span durations; it makes as many proofs as there are runs, of the kind that the
/// prover stands for; it reads the span durations and decodes the outputs; it verifies as often as
/// there are runs, unless the prover is `light`; for Plonk proofs it measures the proof and makes,
/// measures and verifies a compressed one; and last it appends its line.
pub proof fn law_actions_come_in_order<P: ?Sized>(args: BenchmarkArgs<P>, events: Seq<Event>)
    requires
        planned(args) is Some,
        !(action_of(course(planned(args)->0, events)) is Finish),
        !(action_of(course(planned(args)->0, events)) is Stop),
    ensures
        ({
            let action = action_of(course(planned(args)->0, events));
            let n = events.len() as int;
            let runs = args.runs as int;
            let mock = events[6] matches Event::Prover(Some(name)) && name@ == "mock"@;
            let light = events[6] matches Event::Prover(Some(name)) && name@ == "light"@;
            let plonk = !mock && !light;
            &&& n == 0 ==> (action matches Action::ResolveSigners { spec, mode, requested } && (
            spec is Minimal <==> args.spec_name@ == "minimal"@) && mode == args.mode && requested
                == args.signers_per_update)
            &&& n == 1 ==> (events[0] matches Event::Signers { effective, committee_size } && action
                == (Action::GenerateFixture {
                mode: args.mode,
                initial_slot: args.initial_slot,
                committee_transitions: args.committee_transitions,
                signers_per_update: effective,
            }))
            &&& n == 2 ==> action is RunNative
            &&& n == 3 ==> action is EncodeInputs
            &&& n == 4 ==> action is LoadProgram
            &&& n == 5 ==> action is SetUp
            &&& n == 6 ==> action is ReadProver
            &&& n == 7 ==> action is Execute
            &&& n == 8 ==> action is ClearTimings
            &&& 9 <= n < 9 + runs ==> action == Action::Prove(
                if plonk {
                    SyntheticProofMode::Plonk
                } else {
                    SyntheticProofMode::Core
                },
            )
            &&& n == 9 + runs ==> action is ReadTimings
            &&& n == 10 + runs ==> action is DecodeOutputs
            &&& n >= 11 + runs && light ==> n == 11 + runs && action is Append
            &&& 11 + runs <= n < 11 + 2 * runs && !light ==> action is Verify
            &&& n >= 11 + 2 * runs && mock ==> n == 11 + 2 * runs && action is Append
            &&& n == 11 + 2 * runs && plonk ==> action is MeasureProof
            &&& n == 12 + 2 * runs && plonk ==> action is ProveCompressed
            &&& n == 13 + 2 * runs && plonk ==> action is MeasureCompressed
            &&& n == 14 + 2 * runs && plonk ==> action is VerifyCompressed
            &&& n >= 15 + 2 * runs && plonk ==> n == 15 + 2 * runs && action is Append
        }),
{
    let plan = planned(args)->0;
    let s = course(plan, events);
    law_plans_keep_to_their_arguments(args, plan);
    lemma_course_is_orderly(plan, events);
    lemma_told(plan, events);
    lemma_prover_names();
}

/// The two provers that make core proofs are told apart by their names.
proof fn lemma_prover_names()
    ensures
        "mock"@ != "light"@,
{
    reveal_strlit("mock");
    reveal_strlit("light");
    assert("mock"@.len() != "light"@.len());
}

/// The fixture is generated for the arguments: whenever a run asks for a fixture, it asks for the
/// mode, the initial slot and the transitions of the arguments and for the signers that its first
/// answer told; and whenever it asks for the signers, it names the spec, the mode and the signers of
/// the arguments.
pub proof fn law_fixtures_are_for_the_arguments<P: ?Sized>(
    args: BenchmarkArgs<P>,
    events: Seq<Event>,
)
    requires
        planned(args) is Some,
    ensures
        action_of(course(planned(args)->0, events)) matches Action::GenerateFixture {
            mode,
            initial_slot,
            committee_transitions,
            signers_per_update,
        } ==> {
            &&& mode == args.mode
            &&& initial_slot == args.initial_slot
            &&& committee_transitions == args.committee_transitions
            &&& events.len() == 1
            &&& events[0] matches Event::Signers { effective, committee_size }
                && signers_per_update == effective
        },
        action_of(course(planned(args)->0, events)) matches Action::ResolveSigners {
            spec,
            mode,
            requested,
        } ==> {
            &&& spec is Minimal <==> args.spec_name@ == "minimal"@
            &&& spec is Mainnet <==> args.spec_name@ == "mainnet"@
            &&& mode == args.mode
            &&& requested == args.signers_per_update
            &&& events.len() == 0
        },
{
    let plan = planned(args)->0;
    let s = course(plan, events);
    law_plans_keep_to_their_arguments(args, plan);
    lemma_course_is_orderly(plan, events);
    law_names_mean_what_they_say(args.spec_name@);
    if !s.ended() {
        lemma_told(plan, events);
    }
}

/// The line that a run asks to append holds, field by field, what was planned and told: the mode,
/// the initial slot, the transitions and the runs of the arguments, and from the answers, each in
/// its place, the signers and the committee size, the durations of generating, setting up and
/// executing, the instructions and the gas, the heads and the number of updates of the proof, the
/// sizes and the durations of Plonk proofs, and the averages of all span durations and of all
/// verifications. What a run does not measure is zero.
pub proof fn law_lines_report_what_was_told<P: ?Sized>(args: BenchmarkArgs<P>, events: Seq<Event>)
    requires
        planned(args) is Some,
        action_of(course(planned(args)->0, events)) is Append,
    ensures
        ({
            let record = action_of(course(planned(args)->0, events))->Append_0;
            let runs = args.runs as int;
            let mock = events[6] matches Event::Prover(Some(name)) && name@ == "mock"@;
            let light = events[6] matches Event::Prover(Some(name)) && name@ == "light"@;
            let plonk = !mock && !light;
            &&& record.mode == args.mode
            &&& record.initial_slot == args.initial_slot
            &&& record.committee_transitions == args.committee_transitions
            &&& record.runs == args.runs
            &&& events[0] == (Event::Signers {
                effective: record.signers_per_update,
                committee_size: record.committee_size,
            })
            &&& events[1] == Event::Elapsed(record.fixture_us)
            &&& events[5] == Event::Elapsed(record.setup_us)
            &&& events[6] is Prover
            &&& events[7] matches Event::Executed { elapsed_us, total_instructions, gas }
                && record.execute_us == elapsed_us && record.total_instructions
                == total_instructions && (gas matches Some(used) ==> record.gas == used) && (
            gas is None ==> record.gas == 0)
            &&& events[9 + runs] matches Event::Timings(timings) && record.prove_avg.total
                == total_us(timings.prove@) && record.plonk_span_avg.total == total_us(
                timings.plonk@,
            ) && record.wrap_span_avg.total == total_us(timings.wrap@) && (timings.prove@.len()
                <= usize::MAX ==> record.prove_avg.count == timings.prove@.len()) && (
            timings.plonk@.len() <= usize::MAX ==> record.plonk_span_avg.count
                == timings.plonk@.len()) && (timings.wrap@.len() <= usize::MAX
                ==> record.wrap_span_avg.count == timings.wrap@.len())
            &&& events[10 + runs] matches Event::Outputs(outputs) && record.prev_head
                == outputs.prev_head && record.new_head == outputs.new_head
                && record.updates_processed == outputs.updates_processed
            &&& record.verify_avg.count == args.runs
            &&& light ==> record.verify_avg.total == 0
            &&& !light ==> record.verify_avg.total == total_us(
                Seq::new(args.runs as nat, |i: int| events[11 + runs + i]->Elapsed_0),
            )
            &&& !light ==> forall|i: int|
                11 + runs <= i < 11 + 2 * runs ==> (#[trigger] events[i]) is Elapsed
            &&& plonk ==> events[11 + 2 * runs] == Event::Size(record.proof_bytes)
            &&& plonk ==> events[13 + 2 * runs] == Event::Size(record.compressed_proof_bytes)
            &&& plonk ==> events[14 + 2 * runs] == Event::Elapsed(record.compressed_verify_us)
            &&& !plonk ==> record.proof_bytes == 0
            &&& !plonk ==> record.compressed_proof_bytes == 0
            &&& !plonk ==> record.compressed_verify_us == 0
            &&& events.len() == if light {
                11 + runs
            } else if mock {
                11 + 2 * runs
            } else {
                15 + 2 * runs
            }
        }),
{
    let plan = planned(args)->0;
    let s = course(plan, events);
    law_plans_keep_to_their_arguments(args, plan);
    lemma_course_is_orderly(plan, events);
    lemma_told(plan, events);
    lemma_prover_names();
    lemma_total_of_zeros(plan.runs as nat);
    if s.measured.verifies() {
        assert forall|i: int| 11 + plan.runs <= i < 11 + 2 * plan.runs implies (
        #[trigger] events[i]) is Elapsed by {
            let k = i - 11 - plan.runs;
            assert(events[11 + plan.runs + k] == Event::Elapsed(s.verify_times[k]));
        }
        let runs = args.runs as int;
        assert(Seq::new(args.runs as nat, |i: int| events[11 + runs + i]->Elapsed_0)
            =~= s.verify_times);
    }
}

/// A line is only appended for a proof that agrees with the native replay: the outputs decoded from
/// the proof are, field by field, those that were expected.
pub proof fn law_reported_proofs_agree_with_the_replay(plan: RunPlan, events: Seq<Event>)
    requires
        action_of(course(plan, events)) is Append,
    ensures
        ({
            let runs = plan.runs as int;
            &&& events[2] matches Event::Outputs(expected)
                && events[10 + runs] matches Event::Outputs(told) && told.mode == expected.mode
                && told.spec == expected.spec && told.updates_processed
                == expected.updates_processed && told.prev_header@ == expected.prev_header@
                && told.prev_head == expected.prev_head && told.prev_sync_committee_hash@
                == expected.prev_sync_committee_hash@ && told.new_header@ == expected.new_header@
                && told.new_head == expected.new_head && told.sync_committee_hash@
                == expected.sync_committee_hash@ && told.next_sync_committee_hash@
                == expected.next_sync_committee_hash@
        }),
{
    lemma_course_is_orderly(plan, events);
    lemma_told(plan, events);
    law_outputs_agree_in_every_field(
        events[10 + plan.runs]->Outputs_0,
        events[2]->Outputs_0,
    );
}

/// Until the proofs, in every session, the answer decides what comes next: the right one leads on to the next
/// action, an action that fails stops the run with the error of that action, and an answer to
/// something else stops it as out of order.
pub proof fn law_answers_before_the_proofs(s: SessionView, event: Event)
    ensures
        ({
            let asked = action_of(s);
            let next = action_of(step(s, event));
            match asked {
                Action::ResolveSigners { spec, mode, requested } => match event {
                    Event::Signers { effective, committee_size } => next is GenerateFixture,
                    _ => next == Action::Stop(BenchmarkError::OutOfOrder),
                },
                Action::GenerateFixture {
                    mode,
                    initial_slot,
                    committee_transitions,
                    signers_per_update,
                } => match event {
                    Event::Elapsed(us) => next is RunNative,
                    Event::Failed => next == Action::Stop(BenchmarkError::Fixture),
                    _ => next == Action::Stop(BenchmarkError::OutOfOrder),
                },
                Action::RunNative => match event {
                    Event::Outputs(outputs) => next is EncodeInputs,
                    Event::Failed => next == Action::Stop(BenchmarkError::Native),
                    _ => next == Action::Stop(BenchmarkError::OutOfOrder),
                },
                Action::EncodeInputs => match event {
                    Event::Done => next is LoadProgram,
                    Event::Failed => next == Action::Stop(BenchmarkError::Encode),
                    _ => next == Action::Stop(BenchmarkError::OutOfOrder),
                },
                Action::LoadProgram => match event {
                    Event::Done => next is SetUp,
                    Event::Failed => next == Action::Stop(BenchmarkError::Load),
                    _ => next == Action::Stop(BenchmarkError::OutOfOrder),
                },
                Action::SetUp => match event {
                    Event::Elapsed(us) => next is ReadProver,
                    Event::Failed => next == Action::Stop(BenchmarkError::SetUp),
                    _ => next == Action::Stop(BenchmarkError::OutOfOrder),
                },
                Action::ReadProver => match event {
                    Event::Prover(prover) => next is Execute,
                    _ => next == Action::Stop(BenchmarkError::OutOfOrder),
                },
                Action::Execute => match event {
                    Event::Executed { elapsed_us, total_instructions, gas } => next is ClearTimings,
                    Event::Failed => next == Action::Stop(BenchmarkError::Execute),
                    _ => next == Action::Stop(BenchmarkError::OutOfOrder),
                },
                Action::ClearTimings => match event {
                    Event::Done => if s.plan.runs == 0 {
                        next is ReadTimings
                    } else {
                        next is Prove
                    },
                    _ => next == Action::Stop(BenchmarkError::OutOfOrder),
                },
                _ => true,
            }
        }),
{
}

/// Proofs are made one after the other, as many as there are runs, all of one kind; one that fails
/// stops the run. The span durations are read behind the last.
pub proof fn law_answers_on_proofs(plan: RunPlan, events: Seq<Event>, event: Event)
    ensures
        ({
            let asked = action_of(course(plan, events));
            let next = action_of(course(plan, events.push(event)));
            let runs = plan.runs as int;
            let n = events.len() as int;
            match asked {
                Action::Prove(mode) => match event {
                    Event::Done => if n + 1 < 9 + runs {
                        next == asked
                    } else {
                        next is ReadTimings
                    },
                    Event::Failed => next == Action::Stop(BenchmarkError::Prove),
                    _ => next == Action::Stop(BenchmarkError::OutOfOrder),
                },
                _ => true,
            }
        }),
{
    let s = course(plan, events);
    assert(events.push(event).drop_last() =~= events);
    assert(course(plan, events.push(event)) == step(s, event));
    lemma_course_is_orderly(plan, events);
    if !s.ended() {
        lemma_told(plan, events);
    }
}

/// Span durations whose sum cannot be held stop the run for that, and no runs stop it for want of a
/// proof. Outputs that differ from the expected ones in any field stop it as diverged; where they
/// agree in all of them, the proof is verified, or the run reported if the prover is `light`.
#[verifier::rlimit(30)]
pub proof fn law_answers_on_outputs(plan: RunPlan, events: Seq<Event>, event: Event)
    ensures
        ({
            let asked = action_of(course(plan, events));
            let next = action_of(course(plan, events.push(event)));
            let runs = plan.runs as int;
            let light = events[6] matches Event::Prover(Some(name)) && name@ == "light"@;
            match asked {
                Action::ReadTimings => match event {
                    Event::Timings(timings) => if total_us(timings.prove@) > u128::MAX || total_us(
                        timings.plonk@,
                    ) > u128::MAX || total_us(timings.wrap@) > u128::MAX {
                        next == Action::Stop(BenchmarkError::DurationOverflow)
                    } else if runs == 0 {
                        next == Action::Stop(BenchmarkError::NoRuns)
                    } else {
                        next is DecodeOutputs
                    },
                    _ => next == Action::Stop(BenchmarkError::OutOfOrder),
                },
                Action::DecodeOutputs => match event {
                    Event::Outputs(told) => if events[2] matches Event::Outputs(expected)
                        && told.mode == expected.mode && told.spec == expected.spec
                        && told.updates_processed == expected.updates_processed
                        && told.prev_header@ == expected.prev_header@ && told.prev_head
                        == expected.prev_head && told.prev_sync_committee_hash@
                        == expected.prev_sync_committee_hash@ && told.new_header@
                        == expected.new_header@ && told.new_head == expected.new_head
                        && told.sync_committee_hash@ == expected.sync_committee_hash@
                        && told.next_sync_committee_hash@ == expected.next_sync_committee_hash@ {
                        if light {
                            next is Append
                        } else {
                            next is Verify
                        }
                    } else {
                        next == Action::Stop(BenchmarkError::Diverged)
                    },
                    Event::Failed => next == Action::Stop(BenchmarkError::Decode),
                    _ => next == Action::Stop(BenchmarkError::OutOfOrder),
                },
                _ => true,
            }
        }),
{
    let s = course(plan, events);
    assert(events.push(event).drop_last() =~= events);
    assert(course(plan, events.push(event)) == step(s, event));
    lemma_course_is_orderly(plan, events);
    lemma_prover_names();
    lemma_total_of_zeros(plan.runs as nat);
    if !s.ended() {
        lemma_told(plan, events);
        if s.phase is Decode && event is Outputs {
            law_outputs_agree_in_every_field(event->Outputs_0, events[2]->Outputs_0);
        }
    }
}

/// Verifications are made one after the other, as many as there are runs; one that fails stops the
/// run. Behind the last, Plonk proofs are measured, and a run of the mock prover is reported, unless
/// its verification times have a sum that cannot be held.
#[verifier::rlimit(30)]
pub proof fn law_answers_on_verifications(plan: RunPlan, events: Seq<Event>, event: Event)
    ensures
        ({
            let asked = action_of(course(plan, events));
            let next = action_of(course(plan, events.push(event)));
            let runs = plan.runs as int;
            let n = events.len() as int;
            let mock = events[6] matches Event::Prover(Some(name)) && name@ == "mock"@;
            let all = events.push(event);
            let times = Seq::new(plan.runs as nat, |i: int| all[11 + runs + i]->Elapsed_0);
            match asked {
                Action::Verify => match event {
                    Event::Elapsed(us) => if n + 1 < 11 + 2 * runs {
                        next is Verify
                    } else if !mock {
                        next is MeasureProof
                    } else if total_us(times) > u128::MAX {
                        next == Action::Stop(BenchmarkError::DurationOverflow)
                    } else {
                        next is Append
                    },
                    Event::Failed => next == Action::Stop(BenchmarkError::Verify),
                    _ => next == Action::Stop(BenchmarkError::OutOfOrder),
                },
                _ => true,
            }
        }),
{
    let s = course(plan, events);
    assert(events.push(event).drop_last() =~= events);
    assert(course(plan, events.push(event)) == step(s, event));
    lemma_course_is_orderly(plan, events);
    let all = events.push(event);
    let runs = plan.runs as int;
    let times = Seq::new(plan.runs as nat, |i: int| all[11 + runs + i]->Elapsed_0);
    if !s.ended() {
        lemma_told(plan, events);
        if s.phase is Verifying && event is Elapsed && events.len() + 1 == 11 + 2 * runs {
            assert forall|i: int| 0 <= i < events.len() implies all[i] == events[i] by {}
            assert(times =~= s.verify_times.push(event->Elapsed_0));
        }
    }
}

/// The verification of the compressed proof is the last of the measurements: one that fails stops
/// the run, and so do verification times whose sum cannot be held; else the run is reported.
#[verifier::rlimit(30)]
pub proof fn law_answers_on_compressed_verification(plan: RunPlan, events: Seq<Event>, event: Event)
    ensures
        ({
            let asked = action_of(course(plan, events));
            let next = action_of(course(plan, events.push(event)));
            let runs = plan.runs as int;
            let all = events.push(event);
            let times = Seq::new(plan.runs as nat, |i: int| all[11 + runs + i]->Elapsed_0);
            match asked {
                Action::VerifyCompressed => match event {
                    Event::Elapsed(us) => if total_us(times) > u128::MAX {
                        next == Action::Stop(BenchmarkError::DurationOverflow)
                    } else {
                        next is Append
                    },
                    Event::Failed => next == Action::Stop(BenchmarkError::CompressedVerify),
                    _ => next == Action::Stop(BenchmarkError::OutOfOrder),
                },
                _ => true,
            }
        }),
{
    let s = course(plan, events);
    assert(events.push(event).drop_last() =~= events);
    assert(course(plan, events.push(event)) == step(s, event));
    lemma_course_is_orderly(plan, events);
    let all = events.push(event);
    let runs = plan.runs as int;
    let times = Seq::new(plan.runs as nat, |i: int| all[11 + runs + i]->Elapsed_0);
    if !s.ended() {
        lemma_told(plan, events);
        if s.phase is CompressedVerify {
            assert forall|i: int| 0 <= i < events.len() implies all[i] == events[i] by {}
            assert(times =~= s.verify_times);
        }
    }
}

/// Behind the verifications, too, in every session, the answer decides what comes next; and nothing
/// leads on from the end.
pub proof fn law_answers_after_the_verifications(s: SessionView, event: Event)
    ensures
        ({
            let asked = action_of(s);
            let next = action_of(step(s, event));
            match asked {
                Action::MeasureProof => match event {
                    Event::Size(bytes) => next is ProveCompressed,
                    _ => next == Action::Stop(BenchmarkError::OutOfOrder),
                },
                Action::ProveCompressed => match event {
                    Event::Done => next is MeasureCompressed,
                    Event::Failed => next == Action::Stop(BenchmarkError::CompressedProof),
                    _ => next == Action::Stop(BenchmarkError::OutOfOrder),
                },
                Action::MeasureCompressed => match event {
                    Event::Size(bytes) => next is VerifyCompressed,
                    Event::Failed => next == Action::Stop(BenchmarkError::CompressedSize),
                    _ => next == Action::Stop(BenchmarkError::OutOfOrder),
                },
                Action::Append(record) => match event {
                    Event::Done => next is Finish,
                    Event::Failed => next == Action::Stop(BenchmarkError::Append),
                    _ => next == Action::Stop(BenchmarkError::OutOfOrder),
                },
                Action::Finish => next is Finish,
                Action::Stop(error) => next == asked,
                _ => true,
            }
        }),
{
}

} // verus!
