//! The durations of the prover's internal spans.
//!
//! The prover reports its work as named tracing spans. Three of them are of interest; one duration
//! per closed span goes into the matching buffer, and the buffers are averaged after the proofs.

use vstd::prelude::*;

use crate::text::same_text;

verus! {

/// The spans whose durations are kept.
#[derive(Clone, Copy, Debug, PartialEq, Eq, Structural)]
pub enum SpanKind {
    Prove,
    Plonk,
    Wrap,
}

/// The kind of span with a given name, if its durations are kept.
pub open spec fn named_span(name: Seq<char>) -> Option<SpanKind> {
    if name == "prove"@ {
        Some(SpanKind::Prove)
    } else if name == "prove plonk"@ {
        Some(SpanKind::Plonk)
    } else if name == "prove wrap"@ {
        Some(SpanKind::Wrap)
    } else {
        None
    }
}

/// The name of a kind of span.
pub open spec fn span_name(kind: SpanKind) -> Seq<char> {
    match kind {
        SpanKind::Prove => "prove"@,
        SpanKind::Plonk => "prove plonk"@,
        SpanKind::Wrap => "prove wrap"@,
    }
}

/// Looks up a span by its name; the start time of a new span is noted when this finds one.
pub fn span_kind(name: &str) -> (kind: Option<SpanKind>)
    ensures
        kind == named_span(name@),
        kind == Some(SpanKind::Prove) <==> name@ == "prove"@,
        kind == Some(SpanKind::Plonk) <==> name@ == "prove plonk"@,
        kind == Some(SpanKind::Wrap) <==> name@ == "prove wrap"@,
{
    proof {
        law_span_names(SpanKind::Prove, name@);
        law_span_names(SpanKind::Plonk, name@);
        law_span_names(SpanKind::Wrap, name@);
    }
    if same_text(name, "prove") {
        Some(SpanKind::Prove)
    } else if same_text(name, "prove plonk") {
        Some(SpanKind::Plonk)
    } else if same_text(name, "prove wrap") {
        Some(SpanKind::Wrap)
    } else {
        None
    }
}

/// The durations of the three spans in microseconds, in the order in which the spans closed.
#[derive(Clone, Debug)]
pub struct SpanTimings {
    pub prove: Vec<u128>,
    pub plonk: Vec<u128>,
    pub wrap: Vec<u128>,
}

/// The durations as sequences.
#[verifier::ext_equal]
pub struct SpanTimingsView {
    pub prove: Seq<u128>,
    pub plonk: Seq<u128>,
    pub wrap: Seq<u128>,
}

impl View for SpanTimings {
    type V = SpanTimingsView;

    open spec fn view(&self) -> SpanTimingsView {
        SpanTimingsView { prove: self.prove@, plonk: self.plonk@, wrap: self.wrap@ }
    }
}

impl SpanTimingsView {
    /// No durations at all.
    pub open spec fn empty() -> SpanTimingsView {
        SpanTimingsView { prove: Seq::empty(), plonk: Seq::empty(), wrap: Seq::empty() }
    }

    /// The durations of one kind of span.
    pub open spec fn of(self, kind: SpanKind) -> Seq<u128> {
        match kind {
            SpanKind::Prove => self.prove,
            SpanKind::Plonk => self.plonk,
            SpanKind::Wrap => self.wrap,
        }
    }

    /// The durations after one more span of a kind has closed.
    pub open spec fn with(self, kind: SpanKind, elapsed: u128) -> SpanTimingsView {
        match kind {
            SpanKind::Prove => SpanTimingsView { prove: self.prove.push(elapsed), ..self },
            SpanKind::Plonk => SpanTimingsView { plonk: self.plonk.push(elapsed), ..self },
            SpanKind::Wrap => SpanTimingsView { wrap: self.wrap.push(elapsed), ..self },
        }
    }

    /// The durations after a span of any name has closed.
    pub open spec fn after_close(self, name: Seq<char>, elapsed: Option<u128>) -> SpanTimingsView {
        match (named_span(name), elapsed) {
            (Some(kind), Some(us)) => self.with(kind, us),
            _ => self,
        }
    }
}

impl SpanTimings {
    /// Empty buffers.
    pub fn new() -> (timings: SpanTimings)
        ensures
            timings@ == SpanTimingsView::empty(),
            timings.prove@.len() == 0,
            timings.plonk@.len() == 0,
            timings.wrap@.len() == 0,
    {
        SpanTimings { prove: Vec::new(), plonk: Vec::new(), wrap: Vec::new() }
    }

    /// Takes note of a span that has closed. `elapsed` is the time since the span's noted start,
    /// or `None` where no start was noted.
    pub fn close_span(&mut self, name: &str, elapsed: Option<u128>)
        ensures
            final(self)@ == old(self)@.after_close(name@, elapsed),
            final(self).prove@ == (match elapsed {
                Some(us) if name@ == "prove"@ => old(self).prove@.push(us),
                _ => old(self).prove@,
            }),
            final(self).plonk@ == (match elapsed {
                Some(us) if name@ == "prove plonk"@ => old(self).plonk@.push(us),
                _ => old(self).plonk@,
            }),
            final(self).wrap@ == (match elapsed {
                Some(us) if name@ == "prove wrap"@ => old(self).wrap@.push(us),
                _ => old(self).wrap@,
            }),
    {
        if let Some(us) = elapsed {
            match span_kind(name) {
                Some(SpanKind::Prove) => self.prove.push(us),
                Some(SpanKind::Plonk) => self.plonk.push(us),
                Some(SpanKind::Wrap) => self.wrap.push(us),
                None => {},
            }
        }
    }

    /// Forgets all durations.
    pub fn clear(&mut self)
        ensures
            final(self)@ == SpanTimingsView::empty(),
            final(self).prove@.len() == 0,
            final(self).plonk@.len() == 0,
            final(self).wrap@.len() == 0,
    {
        self.prove.clear();
        self.plonk.clear();
        self.wrap.clear();
    }
}

/// An average as an exact fraction: `total / count`, or zero where `count` is zero.
#[derive(Clone, Copy, Debug, PartialEq, Eq, Structural)]
pub struct Average {
    pub total: u128,
    pub count: usize,
}

/// The sum of a sequence of durations.
pub open spec fn total_us(values: Seq<u128>) -> nat
    decreases values.len(),
{
    if values.len() == 0 {
        0
    } else {
        total_us(values.drop_last()) + values.last() as nat
    }
}

/// The average of a sequence of durations, if their sum can be held.
pub open spec fn average_us(values: Seq<u128>) -> Option<Average> {
    if total_us(values) <= u128::MAX {
        Some(Average { total: total_us(values) as u128, count: values.len() as usize })
    } else {
        None
    }
}

/// No part of a sequence of durations sums up to more than all of it.
proof fn lemma_total_of_prefix(values: Seq<u128>, n: int)
    requires
        0 <= n <= values.len(),
    ensures
        total_us(values.take(n)) <= total_us(values),
    decreases values.len(),
{
    if n < values.len() {
        lemma_total_of_prefix(values.drop_last(), n);
        assert(values.drop_last().take(n) =~= values.take(n));
    } else {
        assert(values.take(n) =~= values);
    }
}

/// The average of some durations; `None` where their sum cannot be held.
pub fn avg(values: &[u128]) -> (average: Option<Average>)
    ensures
        average == average_us(values@),
        average is None <==> total_us(values@) > u128::MAX,
        average matches Some(a) ==> a.total == total_us(values@) && a.count == values@.len(),
{
    let mut total: u128 = 0;
    let mut i: usize = 0;
    while i < values.len()
        invariant
            i <= values@.len(),
            total == total_us(values@.take(i as int)),
        decreases values@.len() - i,
    {
        proof {
            assert(values@.take(i + 1).drop_last() =~= values@.take(i as int));
            lemma_total_of_prefix(values@, i + 1);
        }
        match total.checked_add(values[i]) {
            Some(sum) => {
                total = sum;
            },
            None => {
                return None;
            },
        }
        i += 1;
    }
    assert(values@.take(i as int) =~= values@);
    Some(Average { total, count: values.len() })
}

/// A span that closes adds its duration to the buffer of its kind and leaves the other buffers
/// alone; spans of other names leave all of them alone.
pub proof fn law_one_entry_per_closed_span(
    timings: SpanTimingsView,
    name: Seq<char>,
    elapsed: u128,
    kind: SpanKind,
)
    ensures
        timings.after_close(name, Some(elapsed)).of(kind) == if named_span(name) == Some(kind) {
            timings.of(kind).push(elapsed)
        } else {
            timings.of(kind)
        },
        timings.after_close(name, None) == timings,
{
}

/// A span that closes: its name, and the time since its noted start.
pub struct SpanClose {
    pub name: Seq<char>,
    pub elapsed: Option<u128>,
}

/// The durations after some spans have closed in turn.
pub open spec fn after_closes(timings: SpanTimingsView, closes: Seq<SpanClose>) -> SpanTimingsView
    decreases closes.len(),
{
    if closes.len() == 0 {
        timings
    } else {
        after_closes(timings, closes.drop_last()).after_close(
            closes.last().name,
            closes.last().elapsed,
        )
    }
}

/// The durations of the spans of one name among some that closed, in the order of closing.
pub open spec fn durations_named(name: Seq<char>, closes: Seq<SpanClose>) -> Seq<u128>
    decreases closes.len(),
{
    if closes.len() == 0 {
        Seq::empty()
    } else {
        let before = durations_named(name, closes.drop_last());
        match closes.last().elapsed {
            Some(us) if closes.last().name == name => before.push(us),
            _ => before,
        }
    }
}

/// However many spans close, each buffer grows by exactly the durations of the spans of its own
/// name, in the order in which they closed.
pub proof fn law_buffers_hold_their_spans(
    timings: SpanTimingsView,
    closes: Seq<SpanClose>,
    kind: SpanKind,
)
    ensures
        after_closes(timings, closes).of(kind) == timings.of(kind) + durations_named(
            span_name(kind),
            closes,
        ),
    decreases closes.len(),
{
    if closes.len() == 0 {
        assert(timings.of(kind) + Seq::<u128>::empty() =~= timings.of(kind));
    } else {
        let before = closes.drop_last();
        let last = closes.last();
        law_buffers_hold_their_spans(timings, before, kind);
        law_span_names(kind, last.name);
        if last.elapsed is Some {
            law_one_entry_per_closed_span(
                after_closes(timings, before),
                last.name,
                last.elapsed->0,
                kind,
            );
        }
        assert(after_closes(timings, closes).of(kind) =~= timings.of(kind) + durations_named(
            span_name(kind),
            closes,
        ));
    }
}

/// A kind of span is found under its own name, and only under that.
pub proof fn law_span_names(kind: SpanKind, name: Seq<char>)
    ensures
        named_span(name) == Some(kind) <==> name == span_name(kind),
{
    reveal_strlit("prove");
    reveal_strlit("prove plonk");
    reveal_strlit("prove wrap");
    assert("prove"@.len() == 5 && "prove plonk"@.len() == 11 && "prove wrap"@.len() == 10);
}

/// The sum of some durations is that of adding them up from zero, one after the other.
pub proof fn law_total_is_the_sum(values: Seq<u128>)
    ensures
        total_us(values) == values.fold_left(0int, |sum: int, us: u128| sum + us),
    decreases values.len(),
{
    if values.len() > 0 {
        law_total_is_the_sum(values.drop_last());
    }
}

/// Durations add up: those of two sequences in a row sum up to what the two sum up to, a single
/// duration is its own sum, and no durations sum up to nothing.
pub proof fn law_durations_add_up(a: Seq<u128>, b: Seq<u128>, us: u128)
    ensures
        total_us(a + b) == total_us(a) + total_us(b),
        total_us(seq![us]) == us,
        total_us(Seq::empty()) == 0,
    decreases b.len(),
{
    assert(seq![us].drop_last() =~= Seq::<u128>::empty());
    assert(total_us(seq![us].drop_last()) == 0);
    if b.len() == 0 {
        assert(a + b =~= a);
    } else {
        law_durations_add_up(a, b.drop_last(), us);
        assert((a + b).drop_last() =~= a + b.drop_last());
    }
}

/// Every duration counts in full, wherever it stands: putting another in its place changes the sum
/// by their difference.
pub proof fn law_every_duration_counts(values: Seq<u128>, i: int, us: u128)
    requires
        0 <= i < values.len(),
    ensures
        total_us(values.update(i, us)) + values[i] == total_us(values) + us,
{
    let before = values.take(i);
    let after = values.skip(i + 1);
    assert(values =~= before + seq![values[i]] + after);
    assert(values.update(i, us) =~= before + seq![us] + after);
    law_durations_add_up(before + seq![values[i]], after, us);
    law_durations_add_up(before + seq![us], after, us);
    law_durations_add_up(before, seq![values[i]], values[i]);
    law_durations_add_up(before, seq![us], us);
}

/// An average is that of all durations: it counts each of them, and it lies between bounds that all
/// of them keep to. In particular equal durations have themselves as their average.
pub proof fn law_averages_are_of_all_durations(values: Seq<u128>, low: u128, high: u128)
    requires
        values.len() <= usize::MAX,
        forall|i: int| 0 <= i < values.len() ==> low <= #[trigger] values[i] <= high,
    ensures
        average_us(values) is None <==> values.fold_left(0int, |sum: int, us: u128| sum + us)
            > u128::MAX,
        average_us(values) matches Some(average) ==> {
            &&& average.count == values.len()
            &&& average.total == values.fold_left(0int, |sum: int, us: u128| sum + us)
            &&& low * average.count <= average.total <= high * average.count
        },
    decreases values.len(),
{
    law_total_is_the_sum(values);
    lemma_total_within(values, low, high);
}

/// Durations within bounds have a sum within as many times the bounds.
proof fn lemma_total_within(values: Seq<u128>, low: u128, high: u128)
    requires
        forall|i: int| 0 <= i < values.len() ==> low <= #[trigger] values[i] <= high,
    ensures
        low * values.len() <= total_us(values) <= high * values.len(),
    decreases values.len(),
{
    if values.len() > 0 {
        let n = values.len() as int;
        let rest = values.drop_last();
        assert forall|i: int| 0 <= i < rest.len() implies low <= #[trigger] rest[i] <= high by {
            assert(rest[i] == values[i]);
        }
        lemma_total_within(rest, low, high);
        assert(low <= values[n - 1] <= high);
        assert(low * n == low * (n - 1) + low) by (nonlinear_arith);
        assert(high * n == high * (n - 1) + high) by (nonlinear_arith);
    } else {
        assert(low * 0 == 0 && high * 0 == 0);
    }
}

/// A span that closes is kept with the spans of its own name: `prove`, `prove plonk` and
/// `prove wrap` have a buffer each, and every other name has none.
pub proof fn law_spans_are_kept_by_name(timings: SpanTimingsView, name: Seq<char>, us: u128)
    ensures
        ({
            let after = timings.after_close(name, Some(us));
            &&& after.prove == if name == "prove"@ {
                timings.prove.push(us)
            } else {
                timings.prove
            }
            &&& after.plonk == if name == "prove plonk"@ {
                timings.plonk.push(us)
            } else {
                timings.plonk
            }
            &&& after.wrap == if name == "prove wrap"@ {
                timings.wrap.push(us)
            } else {
                timings.wrap
            }
        }),
{
    law_span_names(SpanKind::Prove, name);
    law_span_names(SpanKind::Plonk, name);
    law_span_names(SpanKind::Wrap, name);
}

/// Spans that close in two goes leave what they leave when they close in one, the earlier first;
/// and a single one leaves what it leaves by itself.
pub proof fn law_spans_are_kept_in_order(
    timings: SpanTimingsView,
    first: Seq<SpanClose>,
    next: SpanClose,
    second: Seq<SpanClose>,
)
    ensures
        after_closes(timings, first + second) == after_closes(after_closes(timings, first), second),
        after_closes(timings, seq![next]) == timings.after_close(next.name, next.elapsed),
        after_closes(timings, Seq::empty()) == timings,
    decreases second.len(),
{
    assert(seq![next].drop_last() =~= Seq::<SpanClose>::empty());
    assert(after_closes(timings, seq![next].drop_last()) == timings);
    if second.len() == 0 {
        assert(first + second =~= first);
    } else {
        law_spans_are_kept_in_order(timings, first, next, second.drop_last());
        assert((first + second).drop_last() =~= first + second.drop_last());
    }
}

} // verus!
