//! The CSV report: one header line, then one line per run.

use vstd::prelude::*;

use crate::mode::{law_mode_names, mode_label, mode_name, named_mode, BenchmarkMode};
use crate::spans::Average;
use crate::text::{
    decimal, decimal_text, decimal_value, is_digit, law_decimal_round_trip, lemma_decimal_digits,
};

verus! {

/// What is measured of a run for the report. Durations are in microseconds, averages are exact.
#[derive(Clone, Copy, Debug, PartialEq, Eq, Structural)]
pub struct BenchmarkRecord {
    pub mode: BenchmarkMode,
    pub committee_size: usize,
    pub initial_slot: u64,
    pub signers_per_update: usize,
    pub committee_transitions: usize,
    pub runs: usize,
    pub fixture_us: u128,
    pub setup_us: u128,
    pub prove_avg: Average,
    pub verify_avg: Average,
    pub prev_head: u64,
    pub new_head: u64,
    pub updates_processed: u64,
    pub proof_bytes: usize,
    pub total_instructions: u64,
    pub gas: u64,
    pub execute_us: u128,
    pub compressed_proof_bytes: usize,
    pub compressed_verify_us: u128,
    pub plonk_span_avg: Average,
    pub wrap_span_avg: Average,
}

/// The texts of the columns that are printed as decimal fractions.
#[derive(Clone, Debug, PartialEq, Eq)]
pub struct FractionTexts {
    pub prove_avg_us: String,
    pub verify_avg_us: String,
    pub compressed_verify_us: String,
    pub plonk_span_avg_us: String,
    pub wrap_span_avg_us: String,
}

/// Whether a character makes a CSV field need quotes.
pub open spec fn is_special(c: char) -> bool {
    c == ',' || c == '"' || c == '\n' || c == '\r'
}

/// Whether a CSV field needs quotes.
pub open spec fn needs_quotes(field: Seq<char>) -> bool {
    exists|i: int| 0 <= i < field.len() && is_special(#[trigger] field[i])
}

/// A field with every quote written twice.
pub open spec fn doubled_quotes(field: Seq<char>) -> Seq<char>
    decreases field.len(),
{
    if field.len() == 0 {
        Seq::empty()
    } else if field.last() == '"' {
        doubled_quotes(field.drop_last()).push('"').push('"')
    } else {
        doubled_quotes(field.drop_last()).push(field.last())
    }
}

/// A field as it stands in a CSV line.
pub open spec fn csv_field(field: Seq<char>) -> Seq<char> {
    if needs_quotes(field) {
        seq!['"'] + doubled_quotes(field) + seq!['"']
    } else {
        field
    }
}

/// Fields separated by commas.
pub open spec fn joined(fields: Seq<Seq<char>>) -> Seq<char>
    decreases fields.len(),
{
    if fields.len() == 0 {
        Seq::empty()
    } else if fields.len() == 1 {
        fields[0]
    } else {
        joined(fields.drop_last()).push(',') + fields.last()
    }
}

/// A CSV line: the fields, quoted where they need it, separated by commas and ended by a line
/// feed.
pub open spec fn csv_line(fields: Seq<Seq<char>>) -> Seq<char> {
    joined(fields.map_values(|f: Seq<char>| csv_field(f))).push('\n')
}

/// The texts of some strings.
pub open spec fn texts(fields: Seq<String>) -> Seq<Seq<char>> {
    fields.map_values(|s: String| s@)
}

/// Writes one record with a `csv::Writer` in its default configuration, by way of
/// `csv::WriterBuilder::from_writer`, `csv::Writer::write_record` and `csv::Writer::into_inner`.
/// Believed of it: the writer separates fields by commas and ends the record with a line feed; it
/// puts a field in quotes if and only if the field holds a comma, a quote, a line feed or a
/// carriage return, and then writes the quotes inside it twice; writing into memory does not fail.
/// Records of fewer than two fields are left out, as an empty field on its own is written
/// differently.
#[verifier::external_body]
fn csv_record(fields: &Vec<String>) -> (line: String)
    requires
        fields@.len() >= 2,
    ensures
        line@ == csv_line(texts(fields@)),
{
    let mut writer = csv::WriterBuilder::new().has_headers(false).from_writer(Vec::new());
    writer.write_record(fields).expect("writing a record into memory");
    let bytes = writer.into_inner().expect("flushing a record into memory");
    String::from_utf8(bytes).expect("a record of strings is a string")
}

/// The names of the columns.
pub open spec fn header_fields() -> Seq<Seq<char>> {
    seq![
        "timestamp"@,
        "spec"@,
        "mode"@,
        "committee_size"@,
        "initial_slot"@,
        "effective_signers_per_update"@,
        "committee_transitions"@,
        "runs"@,
        "fixture_us"@,
        "setup_us"@,
        "prove_avg_us"@,
        "verify_avg_us"@,
        "prev_head"@,
        "new_head"@,
        "updates_processed"@,
        "proof_bytes"@,
        "total_instructions"@,
        "gas"@,
        "execute_us"@,
        "compressed_proof_bytes"@,
        "compressed_verify_us"@,
        "plonk_span_avg_us"@,
        "wrap_span_avg_us"@,
    ]
}

/// The fields of a line, in the order of the columns.
pub open spec fn row_fields(
    timestamp_ms: u128,
    spec_name: Seq<char>,
    record: BenchmarkRecord,
    fractions: FractionTexts,
) -> Seq<Seq<char>> {
    seq![
        decimal_text(timestamp_ms as nat),
        spec_name,
        mode_name(record.mode),
        decimal_text(record.committee_size as nat),
        decimal_text(record.initial_slot as nat),
        decimal_text(record.signers_per_update as nat),
        decimal_text(record.committee_transitions as nat),
        decimal_text(record.runs as nat),
        decimal_text(record.fixture_us as nat),
        decimal_text(record.setup_us as nat),
        fractions.prove_avg_us@,
        fractions.verify_avg_us@,
        decimal_text(record.prev_head as nat),
        decimal_text(record.new_head as nat),
        decimal_text(record.updates_processed as nat),
        decimal_text(record.proof_bytes as nat),
        decimal_text(record.total_instructions as nat),
        decimal_text(record.gas as nat),
        decimal_text(record.execute_us as nat),
        decimal_text(record.compressed_proof_bytes as nat),
        fractions.compressed_verify_us@,
        fractions.plonk_span_avg_us@,
        fractions.wrap_span_avg_us@,
    ]
}

/// Whether a report of the given length in bytes, if there is one, has lines already.
pub open spec fn has_rows(existing_len: Option<u64>) -> bool {
    existing_len matches Some(len) && len > 0
}

/// What is appended to a report for a line: the header first where the report is new or empty.
pub open spec fn appended_text(existing_len: Option<u64>, row: Seq<Seq<char>>) -> Seq<char> {
    if has_rows(existing_len) {
        csv_line(row)
    } else {
        csv_line(header_fields()) + csv_line(row)
    }
}

/// The names of the columns as strings.
fn header() -> (fields: Vec<String>)
    ensures
        texts(fields@) == header_fields(),
{
    let fields: Vec<String> = vec![
        "timestamp".to_owned(),
        "spec".to_owned(),
        "mode".to_owned(),
        "committee_size".to_owned(),
        "initial_slot".to_owned(),
        "effective_signers_per_update".to_owned(),
        "committee_transitions".to_owned(),
        "runs".to_owned(),
        "fixture_us".to_owned(),
        "setup_us".to_owned(),
        "prove_avg_us".to_owned(),
        "verify_avg_us".to_owned(),
        "prev_head".to_owned(),
        "new_head".to_owned(),
        "updates_processed".to_owned(),
        "proof_bytes".to_owned(),
        "total_instructions".to_owned(),
        "gas".to_owned(),
        "execute_us".to_owned(),
        "compressed_proof_bytes".to_owned(),
        "compressed_verify_us".to_owned(),
        "plonk_span_avg_us".to_owned(),
        "wrap_span_avg_us".to_owned(),
    ];
    assert(texts(fields@) =~= header_fields());
    fields
}

/// The fields of a line as strings.
fn row(
    timestamp_ms: u128,
    spec_name: &str,
    record: &BenchmarkRecord,
    fractions: &FractionTexts,
) -> (fields: Vec<String>)
    ensures
        texts(fields@) == row_fields(timestamp_ms, spec_name@, *record, *fractions),
{
    let fields: Vec<String> = vec![
        decimal(timestamp_ms),
        spec_name.to_owned(),
        mode_label(record.mode).to_owned(),
        decimal(record.committee_size as u128),
        decimal(record.initial_slot as u128),
        decimal(record.signers_per_update as u128),
        decimal(record.committee_transitions as u128),
        decimal(record.runs as u128),
        decimal(record.fixture_us),
        decimal(record.setup_us),
        fractions.prove_avg_us.clone(),
        fractions.verify_avg_us.clone(),
        decimal(record.prev_head as u128),
        decimal(record.new_head as u128),
        decimal(record.updates_processed as u128),
        decimal(record.proof_bytes as u128),
        decimal(record.total_instructions as u128),
        decimal(record.gas as u128),
        decimal(record.execute_us),
        decimal(record.compressed_proof_bytes as u128),
        fractions.compressed_verify_us.clone(),
        fractions.plonk_span_avg_us.clone(),
        fractions.wrap_span_avg_us.clone(),
    ];
    assert(texts(fields@) =~= row_fields(timestamp_ms, spec_name@, *record, *fractions));
    fields
}

/// The text to append to a report of the given length for a run.
pub fn append_csv(
    existing_len: Option<u64>,
    timestamp_ms: u128,
    spec_name: &str,
    record: &BenchmarkRecord,
    fractions: &FractionTexts,
) -> (text: String)
    ensures
        text@ == appended_text(existing_len, row_fields(timestamp_ms, spec_name@, *record, *fractions)),
        existing_len matches Some(len) && len > 0 ==> text@ == csv_line(
            row_fields(timestamp_ms, spec_name@, *record, *fractions),
        ),
        existing_len is None || existing_len == Some(0u64) ==> text@ == csv_line(header_fields())
            + csv_line(row_fields(timestamp_ms, spec_name@, *record, *fractions)),
{
    let fields: Vec<String> = row(timestamp_ms, spec_name, record, fractions);
    assert(texts(fields@).len() == fields@.len());
    let line: String = csv_record(&fields);
    let new_report: bool = match existing_len {
        Some(len) => len == 0,
        None => true,
    };
    if new_report {
        let names: Vec<String> = header();
        assert(texts(names@).len() == names@.len());
        let mut text: String = csv_record(&names);
        text.append(line.as_str());
        text
    } else {
        line
    }
}

/// Every line has one field per column.
pub proof fn law_one_field_per_column(
    timestamp_ms: u128,
    spec_name: Seq<char>,
    record: BenchmarkRecord,
    fractions: FractionTexts,
)
    ensures
        row_fields(timestamp_ms, spec_name, record, fractions).len() == header_fields().len(),
{
}

/// A report with the given lines: nothing at all where there are none, else the header and the
/// lines in order.
pub open spec fn report_text(rows: Seq<Seq<Seq<char>>>) -> Seq<char>
    decreases rows.len(),
{
    if rows.len() == 0 {
        Seq::empty()
    } else if rows.len() == 1 {
        csv_line(header_fields()) + csv_line(rows[0])
    } else {
        report_text(rows.drop_last()) + csv_line(rows.last())
    }
}

/// A report that is only ever appended to is a single header followed by its lines in order. The
/// length in bytes that the report has before the append, if it exists, is that of its text: zero
/// if and only if the text is empty.
pub proof fn law_report_is_header_and_lines(
    rows: Seq<Seq<Seq<char>>>,
    row: Seq<Seq<char>>,
    existing_len: Option<u64>,
)
    requires
        has_rows(existing_len) <==> report_text(rows).len() > 0,
    ensures
        report_text(rows) + appended_text(existing_len, row) == report_text(rows.push(row)),
{
    assert(rows.push(row).drop_last() =~= rows);
    if rows.len() > 0 {
        lemma_report_not_empty(rows);
    }
    assert(report_text(rows) + appended_text(existing_len, row) =~= report_text(rows.push(row)));
}

/// A report with lines has text.
proof fn lemma_report_not_empty(rows: Seq<Seq<Seq<char>>>)
    requires
        rows.len() > 0,
    ensures
        report_text(rows).len() > 0,
    decreases rows.len(),
{
}

/// A line whose fields need no quotes is just the fields and commas.
proof fn lemma_plain_line(fields: Seq<Seq<char>>)
    requires
        forall|i: int| 0 <= i < fields.len() ==> !needs_quotes(#[trigger] fields[i]),
    ensures
        csv_line(fields) == joined(fields).push('\n'),
{
    assert(fields.map_values(|f: Seq<char>| csv_field(f)) =~= fields);
}

/// A number needs no quotes.
proof fn lemma_decimal_is_plain(n: nat)
    ensures
        !needs_quotes(decimal_text(n)),
{
    lemma_decimal_digits(n);
    assert forall|i: int| 0 <= i < decimal_text(n).len() implies !is_special(
        #[trigger] decimal_text(n)[i],
    ) by {
        assert(is_digit(decimal_text(n)[i]));
    }
}

/// The name of a column needs no quotes.
proof fn lemma_header_is_plain(i: int)
    requires
        0 <= i < header_fields().len(),
    ensures
        !needs_quotes(header_fields()[i]),
{
    reveal_strlit("timestamp");
    reveal_strlit("spec");
    reveal_strlit("mode");
    reveal_strlit("committee_size");
    reveal_strlit("initial_slot");
    reveal_strlit("effective_signers_per_update");
    reveal_strlit("committee_transitions");
    reveal_strlit("runs");
    reveal_strlit("fixture_us");
    reveal_strlit("setup_us");
    reveal_strlit("prove_avg_us");
    reveal_strlit("verify_avg_us");
    reveal_strlit("prev_head");
    reveal_strlit("new_head");
    reveal_strlit("updates_processed");
    reveal_strlit("proof_bytes");
    reveal_strlit("total_instructions");
    reveal_strlit("gas");
    reveal_strlit("execute_us");
    reveal_strlit("compressed_proof_bytes");
    reveal_strlit("compressed_verify_us");
    reveal_strlit("plonk_span_avg_us");
    reveal_strlit("wrap_span_avg_us");
}

/// The report holds no quotes where none are needed: the header, and every line whose spec name and
/// fractions are without commas, quotes and line breaks, is its fields with commas between them and
/// a line feed.
pub proof fn law_lines_are_plain(
    timestamp_ms: u128,
    spec_name: Seq<char>,
    record: BenchmarkRecord,
    fractions: FractionTexts,
)
    requires
        !needs_quotes(spec_name),
        !needs_quotes(fractions.prove_avg_us@),
        !needs_quotes(fractions.verify_avg_us@),
        !needs_quotes(fractions.compressed_verify_us@),
        !needs_quotes(fractions.plonk_span_avg_us@),
        !needs_quotes(fractions.wrap_span_avg_us@),
    ensures
        csv_line(header_fields()) == joined(header_fields()).push('\n'),
        csv_line(row_fields(timestamp_ms, spec_name, record, fractions)) == joined(
            row_fields(timestamp_ms, spec_name, record, fractions),
        ).push('\n'),
{
    assert forall|i: int| 0 <= i < header_fields().len() implies !needs_quotes(
        #[trigger] header_fields()[i],
    ) by {
        lemma_header_is_plain(i);
    }
    lemma_plain_line(header_fields());
    lemma_decimal_is_plain(timestamp_ms as nat);
    lemma_decimal_is_plain(record.committee_size as nat);
    lemma_decimal_is_plain(record.initial_slot as nat);
    lemma_decimal_is_plain(record.signers_per_update as nat);
    lemma_decimal_is_plain(record.committee_transitions as nat);
    lemma_decimal_is_plain(record.runs as nat);
    lemma_decimal_is_plain(record.fixture_us as nat);
    lemma_decimal_is_plain(record.setup_us as nat);
    lemma_decimal_is_plain(record.prev_head as nat);
    lemma_decimal_is_plain(record.new_head as nat);
    lemma_decimal_is_plain(record.updates_processed as nat);
    lemma_decimal_is_plain(record.proof_bytes as nat);
    lemma_decimal_is_plain(record.total_instructions as nat);
    lemma_decimal_is_plain(record.gas as nat);
    lemma_decimal_is_plain(record.execute_us as nat);
    lemma_decimal_is_plain(record.compressed_proof_bytes as nat);
    reveal_strlit("strict");
    reveal_strlit("simplified");
    assert(!needs_quotes(mode_name(record.mode)));
    lemma_plain_line(row_fields(timestamp_ms, spec_name, record, fractions));
}

/// Where a reader of a CSV line is: at the start of a field, in a field without quotes, between
/// quotes, behind a quote that may be the closing one, or behind the end of the line.
pub enum ReadPlace {
    Start,
    Plain,
    Quoted,
    QuoteSeen,
    End,
}

/// What a reader of a CSV line has read: the fields before the current one, and what there is of
/// the current one.
pub struct ReadState {
    pub fields: Seq<Seq<char>>,
    pub field: Seq<char>,
    pub place: ReadPlace,
}

impl ReadState {
    /// A reader at the start of a line.
    pub open spec fn start() -> ReadState {
        ReadState { fields: Seq::empty(), field: Seq::empty(), place: ReadPlace::Start }
    }

    /// The reader after one more character of the current field.
    pub open spec fn take_char(self, c: char, place: ReadPlace) -> ReadState {
        ReadState { fields: self.fields, field: self.field.push(c), place }
    }

    /// The reader after the end of the current field.
    pub open spec fn end_field(self, place: ReadPlace) -> ReadState {
        ReadState { fields: self.fields.push(self.field), field: Seq::empty(), place }
    }

    /// The reader somewhere else, with nothing more read.
    pub open spec fn at(self, place: ReadPlace) -> ReadState {
        ReadState { fields: self.fields, field: self.field, place }
    }

    /// The reader after a character. A field that starts with a quote runs to the closing quote,
    /// and a quote written twice inside it stands for one.
    pub open spec fn read(self, c: char) -> ReadState {
        match self.place {
            ReadPlace::End => self,
            ReadPlace::Quoted => if c == '"' {
                self.at(ReadPlace::QuoteSeen)
            } else {
                self.take_char(c, ReadPlace::Quoted)
            },
            place => if c == ',' {
                self.end_field(ReadPlace::Start)
            } else if c == '\n' {
                self.end_field(ReadPlace::End)
            } else if c == '"' && (place is Start) {
                self.at(ReadPlace::Quoted)
            } else if c == '"' && (place is QuoteSeen) {
                self.take_char(c, ReadPlace::Quoted)
            } else {
                self.take_char(c, ReadPlace::Plain)
            },
        }
    }

    /// The reader after a text.
    pub open spec fn read_all(self, text: Seq<char>) -> ReadState
        decreases text.len(),
    {
        if text.len() == 0 {
            self
        } else {
            self.read_all(text.drop_last()).read(text.last())
        }
    }
}

/// The fields that a reader finds in a CSV line.
pub open spec fn fields_read(line: Seq<char>) -> Seq<Seq<char>> {
    ReadState::start().read_all(line).fields
}

/// Reading two texts in turn is reading the one after the other.
proof fn lemma_read_concat(s: ReadState, a: Seq<char>, b: Seq<char>)
    ensures
        s.read_all(a + b) == s.read_all(a).read_all(b),
    decreases b.len(),
{
    if b.len() == 0 {
        assert(a + b =~= a);
    } else {
        lemma_read_concat(s, a, b.drop_last());
        assert((a + b).drop_last() =~= a + b.drop_last());
    }
}

/// Reading one more character.
proof fn lemma_read_push(s: ReadState, text: Seq<char>, c: char)
    ensures
        s.read_all(text.push(c)) == s.read_all(text).read(c),
{
    assert(text.push(c).drop_last() =~= text);
}

/// Between quotes, a field whose quotes are written twice is read as it is.
proof fn lemma_read_doubled(s: ReadState, field: Seq<char>)
    requires
        s.place is Quoted,
    ensures
        s.read_all(doubled_quotes(field)).fields == s.fields,
        s.read_all(doubled_quotes(field)).field == s.field + field,
        s.read_all(doubled_quotes(field)).place is Quoted,
    decreases field.len(),
{
    if field.len() == 0 {
        assert(s.field + field =~= s.field);
    } else {
        let rest = field.drop_last();
        let text = doubled_quotes(rest);
        lemma_read_doubled(s, rest);
        assert((s.field + rest).push(field.last()) =~= s.field + field);
        if field.last() == '"' {
            lemma_read_push(s, text, '"');
            lemma_read_push(s, text.push('"'), '"');
        } else {
            lemma_read_push(s, text, field.last());
        }
    }
}

/// A field without special characters is read as it is.
proof fn lemma_read_plain(s: ReadState, field: Seq<char>)
    requires
        s.place is Start,
        s.field.len() == 0,
        !needs_quotes(field),
    ensures
        s.read_all(field).fields == s.fields,
        s.read_all(field).field == field,
        s.read_all(field).place is Start || s.read_all(field).place is Plain,
        field.len() > 0 ==> s.read_all(field).place is Plain,
    decreases field.len(),
{
    if field.len() == 0 {
        assert(s.field =~= field);
    } else {
        let rest = field.drop_last();
        assert forall|i: int| 0 <= i < rest.len() implies !is_special(#[trigger] rest[i]) by {
            assert(!is_special(field[i]));
        }
        assert(!is_special(field[field.len() - 1]));
        lemma_read_plain(s, rest);
        assert(rest.push(field.last()) =~= field);
    }
}

/// A field is read back from what is written for it, and the comma or line feed behind it ends it.
proof fn lemma_read_field(s: ReadState, field: Seq<char>)
    requires
        s.place is Start,
        s.field.len() == 0,
    ensures
        ({
            let t = s.read_all(csv_field(field));
            &&& t.read(',') == (ReadState {
                fields: s.fields.push(field),
                field: Seq::empty(),
                place: ReadPlace::Start,
            })
            &&& t.read('\n') == (ReadState {
                fields: s.fields.push(field),
                field: Seq::empty(),
                place: ReadPlace::End,
            })
        }),
{
    if needs_quotes(field) {
        let open = seq!['"'];
        let inner = doubled_quotes(field);
        lemma_read_concat(s, open + inner, seq!['"']);
        lemma_read_concat(s, open, inner);
        lemma_read_push(s, Seq::empty(), '"');
        assert(Seq::<char>::empty().push('"') =~= open);
        let quoted = s.read_all(open);
        assert(quoted == s.at(ReadPlace::Quoted));
        lemma_read_doubled(quoted, field);
        assert(quoted.field + field =~= field);
        let before = quoted.read_all(inner);
        lemma_read_push(before, Seq::empty(), '"');
        assert(Seq::<char>::empty().push('"') =~= seq!['"']);
    } else {
        lemma_read_plain(s, field);
    }
}

/// All fields but the last are read back from a line, and the last one is next.
proof fn lemma_read_joined(fields: Seq<Seq<char>>)
    requires
        fields.len() > 0,
    ensures
        ({
            let written = fields.map_values(|f: Seq<char>| csv_field(f));
            let s = ReadState {
                fields: fields.drop_last(),
                field: Seq::empty(),
                place: ReadPlace::Start,
            };
            ReadState::start().read_all(joined(written)) == s.read_all(csv_field(fields.last()))
        }),
    decreases fields.len(),
{
    let written = fields.map_values(|f: Seq<char>| csv_field(f));
    let start = ReadState::start();
    let rest = fields.drop_last();
    let s = ReadState { fields: rest, field: Seq::empty(), place: ReadPlace::Start };
    if fields.len() == 1 {
        assert(rest =~= Seq::empty());
        assert(joined(written) == csv_field(fields.last()));
    } else {
        let written_rest = rest.map_values(|f: Seq<char>| csv_field(f));
        assert(written.drop_last() =~= written_rest);
        lemma_read_joined(rest);
        let t = ReadState {
            fields: rest.drop_last(),
            field: Seq::empty(),
            place: ReadPlace::Start,
        };
        lemma_read_field(t, rest.last());
        assert(rest.drop_last().push(rest.last()) =~= rest);
        lemma_read_push(start, joined(written_rest), ',');
        lemma_read_concat(start, joined(written_rest).push(','), written.last());
    }
}

/// A CSV line reads back: a reader that undoes the quoting finds exactly the fields that were
/// written, whatever characters they hold.
pub proof fn law_lines_read_back(fields: Seq<Seq<char>>)
    requires
        fields.len() > 0,
    ensures
        fields_read(csv_line(fields)) == fields,
{
    let written = fields.map_values(|f: Seq<char>| csv_field(f));
    let s = ReadState {
        fields: fields.drop_last(),
        field: Seq::empty(),
        place: ReadPlace::Start,
    };
    lemma_read_joined(fields);
    lemma_read_field(s, fields.last());
    lemma_read_push(ReadState::start(), joined(written), '\n');
    assert(fields.drop_last().push(fields.last()) =~= fields);
}

/// What a reader of a whole report has read: the lines that have ended, and the one it is in.
pub struct ReportReadState {
    pub lines: Seq<Seq<Seq<char>>>,
    pub current: ReadState,
}

impl ReportReadState {
    /// A reader at the start of a report.
    pub open spec fn start() -> ReportReadState {
        ReportReadState { lines: Seq::empty(), current: ReadState::start() }
    }

    /// The reader after a character: at the end of a line it starts on the next.
    pub open spec fn read(self, c: char) -> ReportReadState {
        let next = self.current.read(c);
        if next.place is End {
            ReportReadState { lines: self.lines.push(next.fields), current: ReadState::start() }
        } else {
            ReportReadState { lines: self.lines, current: next }
        }
    }

    /// The reader after a text.
    pub open spec fn read_all(self, text: Seq<char>) -> ReportReadState
        decreases text.len(),
    {
        if text.len() == 0 {
            self
        } else {
            self.read_all(text.drop_last()).read(text.last())
        }
    }
}

/// The lines that a reader finds in a report, each as its fields.
pub open spec fn lines_read(report: Seq<char>) -> Seq<Seq<Seq<char>>> {
    ReportReadState::start().read_all(report).lines
}

/// Reading two texts of a report in turn is reading the one after the other.
proof fn lemma_report_concat(s: ReportReadState, a: Seq<char>, b: Seq<char>)
    ensures
        s.read_all(a + b) == s.read_all(a).read_all(b),
    decreases b.len(),
{
    if b.len() == 0 {
        assert(a + b =~= a);
    } else {
        lemma_report_concat(s, a, b.drop_last());
        assert((a + b).drop_last() =~= a + b.drop_last());
    }
}

/// Inside a line the reader of a report reads as the reader of the line does.
proof fn lemma_report_within_line(s: ReportReadState, text: Seq<char>)
    requires
        !(s.current.read_all(text).place is End),
    ensures
        s.read_all(text) == (ReportReadState {
            lines: s.lines,
            current: s.current.read_all(text),
        }),
    decreases text.len(),
{
    if text.len() > 0 {
        lemma_report_within_line(s, text.drop_last());
    }
}

/// The reader of a report reads a line as its fields, and stands at the start of the next.
proof fn lemma_report_line(s: ReportReadState, fields: Seq<Seq<char>>)
    requires
        s.current == ReadState::start(),
        fields.len() > 0,
    ensures
        s.read_all(csv_line(fields)) == (ReportReadState {
            lines: s.lines.push(fields),
            current: ReadState::start(),
        }),
{
    let body = joined(fields.map_values(|f: Seq<char>| csv_field(f)));
    let last = ReadState {
        fields: fields.drop_last(),
        field: Seq::empty(),
        place: ReadPlace::Start,
    };
    lemma_read_joined(fields);
    lemma_read_field(last, fields.last());
    assert(fields.drop_last().push(fields.last()) =~= fields);
    let before = s.current.read_all(body);
    assert(before.read(',').place is Start);
    lemma_report_within_line(s, body);
    assert(csv_line(fields).drop_last() =~= body);
}

/// A whole report reads back: a reader finds the header first and then the lines in the order in
/// which they were appended, each with its fields, and nothing else.
pub proof fn law_reports_read_back(rows: Seq<Seq<Seq<char>>>)
    requires
        forall|i: int| 0 <= i < rows.len() ==> (#[trigger] rows[i]).len() > 0,
    ensures
        lines_read(report_text(rows)) == if rows.len() == 0 {
            Seq::empty()
        } else {
            seq![header_fields()] + rows
        },
{
    if rows.len() > 0 {
        lemma_report_read(rows);
    }
}

/// The reader of a report with lines ends up behind the last of them.
proof fn lemma_report_read(rows: Seq<Seq<Seq<char>>>)
    requires
        rows.len() > 0,
        forall|i: int| 0 <= i < rows.len() ==> (#[trigger] rows[i]).len() > 0,
    ensures
        ReportReadState::start().read_all(report_text(rows)) == (ReportReadState {
            lines: seq![header_fields()] + rows,
            current: ReadState::start(),
        }),
    decreases rows.len(),
{
    let start = ReportReadState::start();
    let last = csv_line(rows.last());
    if rows.len() == 1 {
        let header = csv_line(header_fields());
        lemma_report_line(start, header_fields());
        lemma_report_concat(start, header, last);
        lemma_report_line(start.read_all(header), rows.last());
        assert(Seq::<Seq<Seq<char>>>::empty().push(header_fields()).push(rows.last()) =~= seq![
            header_fields(),
        ] + rows);
    } else {
        let before = rows.drop_last();
        lemma_report_read(before);
        lemma_report_concat(start, report_text(before), last);
        lemma_report_line(start.read_all(report_text(before)), rows.last());
        assert((seq![header_fields()] + before).push(rows.last()) =~= seq![header_fields()] + rows);
    }
}

/// A line of the report reads back to what it reports: the spec name, the mode, the printed
/// fractions and every number are found in their columns.
pub proof fn law_rows_read_back(
    timestamp_ms: u128,
    spec_name: Seq<char>,
    record: BenchmarkRecord,
    fractions: FractionTexts,
)
    ensures
        ({
            let r = fields_read(csv_line(row_fields(timestamp_ms, spec_name, record, fractions)));
            &&& r.len() == header_fields().len()
            &&& decimal_value(r[0]) == timestamp_ms
            &&& r[1] == spec_name
            &&& named_mode(r[2]) == Some(record.mode)
            &&& decimal_value(r[3]) == record.committee_size
            &&& decimal_value(r[4]) == record.initial_slot
            &&& decimal_value(r[5]) == record.signers_per_update
            &&& decimal_value(r[6]) == record.committee_transitions
            &&& decimal_value(r[7]) == record.runs
            &&& decimal_value(r[8]) == record.fixture_us
            &&& decimal_value(r[9]) == record.setup_us
            &&& r[10] == fractions.prove_avg_us@
            &&& r[11] == fractions.verify_avg_us@
            &&& decimal_value(r[12]) == record.prev_head
            &&& decimal_value(r[13]) == record.new_head
            &&& decimal_value(r[14]) == record.updates_processed
            &&& decimal_value(r[15]) == record.proof_bytes
            &&& decimal_value(r[16]) == record.total_instructions
            &&& decimal_value(r[17]) == record.gas
            &&& decimal_value(r[18]) == record.execute_us
            &&& decimal_value(r[19]) == record.compressed_proof_bytes
            &&& r[20] == fractions.compressed_verify_us@
            &&& r[21] == fractions.plonk_span_avg_us@
            &&& r[22] == fractions.wrap_span_avg_us@
        }),
{
    law_lines_read_back(row_fields(timestamp_ms, spec_name, record, fractions));
    law_mode_names(record.mode, mode_name(record.mode));
    law_decimal_round_trip(timestamp_ms as nat);
    law_decimal_round_trip(record.committee_size as nat);
    law_decimal_round_trip(record.initial_slot as nat);
    law_decimal_round_trip(record.signers_per_update as nat);
    law_decimal_round_trip(record.committee_transitions as nat);
    law_decimal_round_trip(record.runs as nat);
    law_decimal_round_trip(record.fixture_us as nat);
    law_decimal_round_trip(record.setup_us as nat);
    law_decimal_round_trip(record.prev_head as nat);
    law_decimal_round_trip(record.new_head as nat);
    law_decimal_round_trip(record.updates_processed as nat);
    law_decimal_round_trip(record.proof_bytes as nat);
    law_decimal_round_trip(record.total_instructions as nat);
    law_decimal_round_trip(record.gas as nat);
    law_decimal_round_trip(record.execute_us as nat);
    law_decimal_round_trip(record.compressed_proof_bytes as nat);
}

/// Every column holds what its name says: under each name in the header stands that entry of the
/// line, for every record.
pub proof fn law_columns_hold_what_they_name(
    timestamp_ms: u128,
    spec_name: Seq<char>,
    record: BenchmarkRecord,
    fractions: FractionTexts,
)
    ensures
        ({
            let header = header_fields();
            let row = row_fields(timestamp_ms, spec_name, record, fractions);
            &&& header.len() == 23 && row.len() == 23
            &&& header[0] == "timestamp"@ && row[0] == decimal_text(timestamp_ms as nat)
            &&& header[1] == "spec"@ && row[1] == spec_name
            &&& header[2] == "mode"@ && row[2] == if record.mode is Strict {
                "strict"@
            } else {
                "simplified"@
            }
            &&& header[3] == "committee_size"@
            &&& row[3] == decimal_text(record.committee_size as nat)
            &&& header[4] == "initial_slot"@ && row[4] == decimal_text(record.initial_slot as nat)
            &&& header[5] == "effective_signers_per_update"@
            &&& row[5] == decimal_text(record.signers_per_update as nat)
            &&& header[6] == "committee_transitions"@
            &&& row[6] == decimal_text(record.committee_transitions as nat)
            &&& header[7] == "runs"@ && row[7] == decimal_text(record.runs as nat)
            &&& header[8] == "fixture_us"@ && row[8] == decimal_text(record.fixture_us as nat)
            &&& header[9] == "setup_us"@ && row[9] == decimal_text(record.setup_us as nat)
            &&& header[10] == "prove_avg_us"@ && row[10] == fractions.prove_avg_us@
            &&& header[11] == "verify_avg_us"@ && row[11] == fractions.verify_avg_us@
            &&& header[12] == "prev_head"@ && row[12] == decimal_text(record.prev_head as nat)
            &&& header[13] == "new_head"@ && row[13] == decimal_text(record.new_head as nat)
            &&& header[14] == "updates_processed"@
            &&& row[14] == decimal_text(record.updates_processed as nat)
            &&& header[15] == "proof_bytes"@ && row[15] == decimal_text(record.proof_bytes as nat)
            &&& header[16] == "total_instructions"@
            &&& row[16] == decimal_text(record.total_instructions as nat)
            &&& header[17] == "gas"@ && row[17] == decimal_text(record.gas as nat)
            &&& header[18] == "execute_us"@ && row[18] == decimal_text(record.execute_us as nat)
            &&& header[19] == "compressed_proof_bytes"@
            &&& row[19] == decimal_text(record.compressed_proof_bytes as nat)
            &&& header[20] == "compressed_verify_us"@ && row[20] == fractions.compressed_verify_us@
            &&& header[21] == "plonk_span_avg_us"@ && row[21] == fractions.plonk_span_avg_us@
            &&& header[22] == "wrap_span_avg_us"@ && row[22] == fractions.wrap_span_avg_us@
        }),
{
}

/// What an append writes reads back: in a report that has lines already it is the new line alone,
/// and in one that is new or empty the header comes first.
pub proof fn law_appends_read_back(existing_len: Option<u64>, row: Seq<Seq<char>>)
    requires
        row.len() > 0,
    ensures
        existing_len matches Some(len) && len > 0 ==> lines_read(appended_text(existing_len, row))
            == seq![row],
        existing_len is None || existing_len == Some(0u64) ==> lines_read(
            appended_text(existing_len, row),
        ) == seq![header_fields(), row],
{
    let start = ReportReadState::start();
    lemma_report_line(start, row);
    assert(start.lines.push(row) =~= seq![row]);
    law_reports_read_back(seq![row]);
    assert(seq![header_fields()] + seq![row] =~= seq![header_fields(), row]);
}

/// Fields are quoted where they need it, and only there: a field without commas, quotes, line feeds
/// and carriage returns stands as it is, and any other stands between quotes.
pub proof fn law_fields_are_quoted_where_needed(field: Seq<char>, i: int)
    ensures
        (forall|j: int|
            0 <= j < field.len() ==> (#[trigger] field[j]) != ',' && field[j] != '"' && field[j]
                != '\n' && field[j] != '\r') ==> csv_field(field) == field,
        0 <= i < field.len() && (field[i] == ',' || field[i] == '"' || field[i] == '\n' || field[i]
            == '\r') ==> csv_field(field).len() >= field.len() + 2 && csv_field(field)[0] == '"'
            && csv_field(field).last() == '"' && csv_field(field) == seq!['"'] + doubled_quotes(
            field,
        ) + seq!['"'],
{
    lemma_doubled_len(field);
    if 0 <= i < field.len() && is_special(field[i]) {
        assert(needs_quotes(field));
    }
}

/// Writing quotes twice makes no field shorter.
proof fn lemma_doubled_len(field: Seq<char>)
    ensures
        doubled_quotes(field).len() >= field.len(),
    decreases field.len(),
{
    if field.len() > 0 {
        lemma_doubled_len(field.drop_last());
    }
}

/// Inside quotes every quote is written twice and every other character once, each in its place.
pub proof fn law_quotes_are_doubled_one_by_one(a: Seq<char>, b: Seq<char>, c: char)
    ensures
        doubled_quotes(a + b) == doubled_quotes(a) + doubled_quotes(b),
        doubled_quotes(seq![c]) == if c == '"' {
            seq!['"', '"']
        } else {
            seq![c]
        },
        doubled_quotes(Seq::empty()).len() == 0,
    decreases b.len(),
{
    assert(seq![c].drop_last() =~= Seq::<char>::empty());
    assert(doubled_quotes(seq![c].drop_last()) =~= Seq::<char>::empty());
    if c == '"' {
        assert(Seq::<char>::empty().push('"').push('"') =~= seq!['"', '"']);
    } else {
        assert(Seq::<char>::empty().push(c) =~= seq![c]);
    }
    if b.len() == 0 {
        assert(a + b =~= a);
        assert(doubled_quotes(a) + Seq::<char>::empty() =~= doubled_quotes(a));
    } else {
        law_quotes_are_doubled_one_by_one(a, b.drop_last(), c);
        assert((a + b).drop_last() =~= a + b.drop_last());
        assert(doubled_quotes(a + b) =~= doubled_quotes(a) + doubled_quotes(b));
    }
}

/// Fields are separated by single commas: the fields of two lists in a row are those of the one, a
/// comma, and those of the other, and a single field stands alone.
pub proof fn law_fields_are_separated_by_commas(a: Seq<Seq<char>>, b: Seq<Seq<char>>)
    requires
        a.len() > 0,
        b.len() > 0,
    ensures
        joined(a + b) == joined(a) + seq![','] + joined(b),
        joined(seq![a[0]]) == a[0],
    decreases b.len(),
{
    if b.len() == 1 {
        assert((a + b).drop_last() =~= a);
        assert(joined(a + b) =~= joined(a) + seq![','] + joined(b));
    } else {
        law_fields_are_separated_by_commas(a, b.drop_last());
        assert((a + b).drop_last() =~= a + b.drop_last());
        assert(joined(a + b) =~= joined(a) + seq![','] + joined(b));
    }
}

} // verus!
