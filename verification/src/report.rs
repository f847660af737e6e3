//! Manifest generation: one header row and one row per scanned file, as
//! delimiter-separated text with standard tabular escaping.
//!
//! The byte count of each file is rendered in decimal and provably
//! re-parses to the original value. The modification timestamp is rendered
//! by the date-time library in the machine's local time zone, so nothing
//! is proved of its text; every other cell of the manifest is pinned
//! exactly. Writing the manifest to disk is input/output and lives outside
//! the library.

use vstd::prelude::*;
use vstd::arithmetic::div_mod::lemma_fundamental_div_mod;
use vstd::string::{StrSliceExecFns, StringExecFns};
use crate::scan::{EntryView, FileTime, Scan};
use crate::strutil::push_char;

verus! {

/// What a report pass can fail with.
#[derive(Debug)]
pub enum ReportError {
    /// Opening or writing the destination failed with the given cause.
    WriteFailed { cause: String },
}

impl ReportError {
    /// A human-readable description naming the cause that failed.
    pub fn message(&self) -> (r: String)
        ensures
            (match self {
                ReportError::WriteFailed { cause } => r@ == "write failed: "@ + cause@,
            }),
    {
        match self {
            ReportError::WriteFailed { cause } => {
                let mut s = String::from_str("write failed: ");
                s.append(cause.as_str());
                s
            },
        }
    }
}

/// The decimal digit character of a value below ten.
pub open spec fn spec_digit_char(d: nat) -> char {
    if d == 0 {
        '0'
    } else if d == 1 {
        '1'
    } else if d == 2 {
        '2'
    } else if d == 3 {
        '3'
    } else if d == 4 {
        '4'
    } else if d == 5 {
        '5'
    } else if d == 6 {
        '6'
    } else if d == 7 {
        '7'
    } else if d == 8 {
        '8'
    } else {
        '9'
    }
}

/// The decimal rendering of a value: its digits, most significant first,
/// with no sign and no leading zero (a single zero for the value zero).
pub open spec fn spec_digits(v: nat) -> Seq<char>
    decreases v,
{
    if v < 10 {
        seq![spec_digit_char(v)]
    } else {
        spec_digits(v / 10).push(spec_digit_char(v % 10))
    }
}

/// The value a sequence of decimal digit characters denotes.
pub open spec fn spec_dec_val(s: Seq<char>) -> int
    decreases s.len(),
{
    if s.len() == 0 {
        0
    } else {
        spec_dec_val(s.drop_last()) * 10 + (s.last() as int - 48)
    }
}

/// The digit characters denote their values.
proof fn lemma_digit_char_val(d: nat)
    requires
        d < 10,
    ensures
        spec_digit_char(d) as int == 48 + d,
{
}

/// Round trip of the decimal rendering: re-parsing the digits of any value
/// recovers exactly that value.
pub proof fn lemma_decimal_round_trip(v: nat)
    ensures
        spec_dec_val(spec_digits(v)) == v,
    decreases v,
{
    if v < 10 {
        lemma_digit_char_val(v);
        let s = spec_digits(v);
        assert(s == seq![spec_digit_char(v)]);
        assert(s.drop_last() =~= Seq::<char>::empty());
        assert(spec_dec_val(s.drop_last()) == 0);
        assert(spec_dec_val(s) == spec_dec_val(s.drop_last()) * 10 + (s.last() as int - 48));
    } else {
        lemma_digit_char_val(v % 10);
        lemma_decimal_round_trip(v / 10);
        let s = spec_digits(v);
        assert(s == spec_digits(v / 10).push(spec_digit_char(v % 10)));
        assert(s.drop_last() =~= spec_digits(v / 10));
        assert(s.last() == spec_digit_char(v % 10));
        assert(spec_dec_val(s) == spec_dec_val(s.drop_last()) * 10 + (s.last() as int - 48));
        lemma_fundamental_div_mod(v as int, 10);
    }
}

/// The digit character of a value below ten.
fn digit_char_of(d: u64) -> (c: char)
    requires
        d < 10,
    ensures
        c == spec_digit_char(d as nat),
{
    match d {
        0 => '0',
        1 => '1',
        2 => '2',
        3 => '3',
        4 => '4',
        5 => '5',
        6 => '6',
        7 => '7',
        8 => '8',
        _ => '9',
    }
}

/// Renders a byte count in decimal.
pub fn u64_to_string(v: u64) -> (r: String)
    ensures
        r@ == spec_digits(v as nat),
    decreases v,
{
    if v < 10 {
        let mut r = String::new();
        push_char(&mut r, digit_char_of(v));
        proof {
            assert(r@ =~= seq![spec_digit_char(v as nat)]);
        }
        r
    } else {
        let mut r = u64_to_string(v / 10);
        push_char(&mut r, digit_char_of(v % 10));
        r
    }
}

/// True when a field needs quoting: it holds the delimiter, the quote
/// character, or a line break.
pub open spec fn spec_needs_quoting(f: Seq<char>) -> bool {
    exists|i: int|
        0 <= i < f.len() && ((#[trigger] f[i]) == ',' || f[i] == '"' || f[i] == '\n' || f[i]
            == '\r')
}

/// One field character as it appears inside a quoted field: a quote is
/// doubled, every other character stands as it is.
pub open spec fn spec_quoted_char(c: char) -> Seq<char> {
    if c == '"' {
        seq!['"', '"']
    } else {
        seq![c]
    }
}

/// A field's characters as they appear inside a quoted field.
pub open spec fn spec_doubled(f: Seq<char>) -> Seq<char>
    decreases f.len(),
{
    if f.len() == 0 {
        Seq::empty()
    } else {
        spec_doubled(f.drop_last()) + spec_quoted_char(f.last())
    }
}

/// A field as written: quoted with doubled quotes when it needs quoting,
/// verbatim otherwise.
pub open spec fn spec_escape_field(f: Seq<char>) -> Seq<char> {
    if spec_needs_quoting(f) {
        seq!['"'] + spec_doubled(f) + seq!['"']
    } else {
        f
    }
}

/// A record's fields as written: escaped and joined by the delimiter.
pub open spec fn spec_fields_joined(fs: Seq<Seq<char>>) -> Seq<char>
    decreases fs.len(),
{
    if fs.len() == 0 {
        Seq::empty()
    } else if fs.len() == 1 {
        spec_escape_field(fs[0])
    } else {
        spec_fields_joined(fs.drop_last()) + seq![','] + spec_escape_field(fs.last())
    }
}

/// A record as written: its joined fields and a terminating line break.
pub open spec fn spec_record_line(fs: Seq<Seq<char>>) -> Seq<char> {
    spec_fields_joined(fs) + seq!['\n']
}

/// A whole manifest as written: its records, in order.
pub open spec fn spec_csv(records: Seq<Seq<Seq<char>>>) -> Seq<char>
    decreases records.len(),
{
    if records.len() == 0 {
        Seq::empty()
    } else {
        spec_csv(records.drop_last()) + spec_record_line(records.last())
    }
}

/// True exactly when the field needs quoting.
fn needs_quoting(f: &str) -> (r: bool)
    ensures
        r == spec_needs_quoting(f@),
{
    let n = f.unicode_len();
    let mut i: usize = 0;
    while i < n
        invariant
            i <= n,
            n == f@.len(),
            forall|j: int|
                0 <= j < i ==> !((#[trigger] f@[j]) == ',' || f@[j] == '"' || f@[j] == '\n'
                    || f@[j] == '\r'),
        decreases n - i,
    {
        let c = f.get_char(i);
        if c == ',' || c == '"' || c == '\n' || c == '\r' {
            return true;
        }
        i += 1;
    }
    false
}

/// Escapes one field per the standard tabular-text rules.
pub fn escape_field(f: &str) -> (r: String)
    ensures
        r@ == spec_escape_field(f@),
{
    if !needs_quoting(f) {
        return String::from_str(f);
    }
    let n = f.unicode_len();
    let mut out = String::new();
    push_char(&mut out, '"');
    let mut i: usize = 0;
    while i < n
        invariant
            i <= n,
            n == f@.len(),
            out@ == seq!['"'] + spec_doubled(f@.take(i as int)),
        decreases n - i,
    {
        let c = f.get_char(i);
        if c == '"' {
            push_char(&mut out, '"');
            push_char(&mut out, '"');
        } else {
            push_char(&mut out, c);
        }
        proof {
            assert(f@.take(i + 1).drop_last() =~= f@.take(i as int));
            assert(out@ =~= seq!['"'] + spec_doubled(f@.take(i + 1)));
        }
        i += 1;
    }
    push_char(&mut out, '"');
    proof {
        assert(f@.take(n as int) =~= f@);
        assert(out@ =~= seq!['"'] + spec_doubled(f@) + seq!['"']);
    }
    out
}

/// Renders one record: its escaped fields joined by the delimiter, with a
/// terminating line break.
pub fn render_record(fields: &Vec<String>) -> (r: String)
    ensures
        r@ == spec_record_line(fields.deep_view()),
{
    let mut out = String::new();
    let mut i: usize = 0;
    while i < fields.len()
        invariant
            i <= fields.deep_view().len(),
            fields.deep_view().len() == fields@.len(),
            out@ == spec_fields_joined(fields.deep_view().take(i as int)),
        decreases fields@.len() - i,
    {
        if i > 0 {
            push_char(&mut out, ',');
        }
        let escaped = escape_field(fields[i].as_str());
        out.append(escaped.as_str());
        proof {
            assert(fields.deep_view().take(i + 1).drop_last() =~= fields.deep_view().take(
                i as int,
            ));
            assert(fields.deep_view()[i as int] == fields@[i as int]@);
            if i == 0 {
                assert(out@ =~= spec_fields_joined(fields.deep_view().take(1)));
            } else {
                assert(out@ =~= spec_fields_joined(fields.deep_view().take(i + 1)));
            }
        }
        i += 1;
    }
    push_char(&mut out, '\n');
    proof {
        assert(fields.deep_view().take(fields.deep_view().len() as int) =~= fields.deep_view());
    }
    out
}

/// Renders a whole manifest: every record in order.
pub fn render_csv(records: &Vec<Vec<String>>) -> (r: String)
    ensures
        r@ == spec_csv(records.deep_view()),
{
    let mut out = String::new();
    let mut i: usize = 0;
    while i < records.len()
        invariant
            i <= records.deep_view().len(),
            records.deep_view().len() == records@.len(),
            out@ == spec_csv(records.deep_view().take(i as int)),
        decreases records@.len() - i,
    {
        let line = render_record(&records[i]);
        out.append(line.as_str());
        proof {
            assert(records.deep_view().take(i + 1).drop_last() =~= records.deep_view().take(
                i as int,
            ));
            assert(records.deep_view()[i as int] == records@[i as int].deep_view());
            assert(out@ =~= spec_csv(records.deep_view().take(i + 1)));
        }
        i += 1;
    }
    proof {
        assert(records.deep_view().take(records.deep_view().len() as int) =~= records.deep_view());
    }
    out
}

/// Relies on chrono's `DateTime::from_timestamp` and `with_timezone`: the
/// timestamp is rendered as a human-readable date-time string in the
/// machine's local time zone. The text depends on that time zone, so
/// nothing is stated of it.
#[verifier::external_body]
fn format_local_timestamp(t: FileTime) -> (r: String)
    requires
        t.wf(),
{
    let utc = chrono::DateTime::<chrono::Utc>::from_timestamp(t.secs, t.nanos).unwrap();
    utc.with_timezone(&chrono::Local).to_string()
}

/// The header row of every manifest.
pub open spec fn spec_report_header() -> Seq<Seq<char>> {
    seq!["file"@, "size_in_bytes"@, "last_modified"@]
}

/// The records of a manifest of the given entries: the header row, then
/// one row per entry with its path, its byte size in decimal, and its
/// timestamp text taken from `stamps`.
pub open spec fn spec_report_rows(entries: Seq<EntryView>, stamps: Seq<Seq<char>>) -> Seq<
    Seq<Seq<char>>,
> {
    seq![spec_report_header()] + Seq::new(
        entries.len(),
        |i: int| seq![entries[i].path, spec_digits(entries[i].size as nat), stamps[i]],
    )
}

impl Scan {
    /// Builds the manifest records of this scan: one header row and, per
    /// entry in order, a row of the entry's path, its byte size in
    /// decimal, and its last-modification time rendered in the local time
    /// zone. The row count therefore always exceeds the entry count by
    /// exactly one.
    pub fn report_records(&self) -> (r: Vec<Vec<String>>)
        requires
            self.wf(),
        ensures
            exists|stamps: Seq<Seq<char>>|
                {
                    &&& #[trigger] stamps.len() == self@.entries.len()
                    &&& r.deep_view() == spec_report_rows(self@.entries, stamps)
                },
            r.deep_view().len() == self@.entries.len() + 1,
    {
        let mut records: Vec<Vec<String>> = Vec::new();
        let mut header: Vec<String> = Vec::new();
        header.push(String::from_str("file"));
        header.push(String::from_str("size_in_bytes"));
        header.push(String::from_str("last_modified"));
        proof {
            assert(header.deep_view() =~= spec_report_header());
        }
        records.push(header);
        let ghost mut stamps: Seq<Seq<char>> = Seq::empty();
        let mut i: usize = 0;
        while i < self.files.len()
            invariant
                self.wf(),
                i <= self.files@.len(),
                self@.entries.len() == self.files@.len(),
                stamps.len() == i,
                records.deep_view() =~~= spec_report_rows(self@.entries.take(i as int), stamps),
            decreases self.files@.len() - i,
        {
            let entry = &self.files[i];
            proof {
                assert(entry.last_modified == self@.entries[i as int].modified);
            }
            let ts = format_local_timestamp(entry.last_modified);
            let ghost prior_stamps = stamps;
            proof {
                stamps = stamps.push(ts@);
            }
            let mut row: Vec<String> = Vec::new();
            row.push(entry.path.clone());
            row.push(u64_to_string(entry.size));
            row.push(ts);
            proof {
                assert(row.deep_view() =~= seq![
                    self@.entries[i as int].path,
                    spec_digits(self@.entries[i as int].size as nat),
                    stamps[i as int],
                ]);
            }
            let ghost prior = records.deep_view();
            records.push(row);
            proof {
                assert(records.deep_view() =~= prior.push(row.deep_view()));
                assert(prior =~~= spec_report_rows(self@.entries.take(i as int), stamps));
                assert(records.deep_view() =~~= spec_report_rows(
                    self@.entries.take(i + 1),
                    stamps,
                ));
            }
            i += 1;
        }
        proof {
            assert(self@.entries.take(self@.entries.len() as int) =~= self@.entries);
            assert(records.deep_view() =~~= spec_report_rows(self@.entries, stamps));
        }
        records
    }

    /// Renders the whole manifest of this scan as tabular text: the header
    /// row and one row per entry, in entry order, with the entry's path
    /// escaped per the standard tabular-text rules, its byte size in
    /// decimal, and its timestamp in the local time zone.
    pub fn render_report(&self) -> (r: String)
        requires
            self.wf(),
        ensures
            exists|stamps: Seq<Seq<char>>|
                {
                    &&& #[trigger] stamps.len() == self@.entries.len()
                    &&& r@ == spec_csv(spec_report_rows(self@.entries, stamps))
                },
    {
        let records = self.report_records();
        render_csv(&records)
    }
}

} // verus!
