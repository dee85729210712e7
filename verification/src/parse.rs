//! The tolerant, positional line parser.
//!
//! A line is a run of fields, each closed by a tab. The first three fields
//! (id, timestamp, record kind) must be there; the eleven numbers after them
//! may be empty, missing or unreadable, in which case the number stays as it
//! was and reading resumes one position further on.
//!
//! A cursor is the position of the separator in front of the field to read.

use vstd::prelude::*;

use crate::model::{FsLibreLine, Record};
use crate::text::{decimal_value, find_char, lemma_position_from, parse_decimal, position_from};
use crate::time::{parsed_timestamp, stamp_view, DateTime, Timestamp};

verus! {

/// The character that closes every field.
pub const SEPARATOR: char = '\t';

/// The character behind which a number's fraction is cut off.
pub const DECIMAL_MARK: char = ',';

/// Number of optional numeric fields behind the record kind.
pub const OPTIONAL_FIELDS: usize = 11;

/// Why a line yields no record.
#[derive(Clone, Copy, Debug, PartialEq, Eq, Structural)]
pub enum LineParseError {
    /// No separator closes the id.
    NoSeparator,
    /// The timestamp field is missing, empty or not a timestamp.
    BadTimestamp,
    /// The record kind is missing, empty or not a number.
    BadRecordKind,
}

impl LineParseError {
    /// A short account of the failure, fit for a diagnostic.
    pub fn describe(&self) -> (text: &'static str)
        ensures
            text@ == match *self {
                LineParseError::NoSeparator => "could not parse: id"@,
                LineParseError::BadTimestamp => "could not parse: timestamp"@,
                LineParseError::BadRecordKind => "could not parse: line type"@,
            },
    {
        match self {
            LineParseError::NoSeparator => "could not parse: id",
            LineParseError::BadTimestamp => "could not parse: timestamp",
            LineParseError::BadRecordKind => "could not parse: line type",
        }
    }
}

/// Why a numeric field was not read.
#[derive(Clone, Copy, Debug, PartialEq, Eq, Structural)]
pub enum FieldError {
    /// No separator closes the field.
    Absent,
    /// The field holds no character.
    Empty,
    /// The field does not write a number that fits.
    Unparseable,
}

/// Position of the separator that closes the field behind `cursor`.
pub open spec fn field_end(s: Seq<char>, cursor: int) -> Option<int> {
    position_from(s, SEPARATOR, cursor + 1)
}

/// Position of the separator that closes the field behind `cursor`, where
/// that field holds at least one character.
pub open spec fn filled_field_end(s: Seq<char>, cursor: int) -> Option<int> {
    match field_end(s, cursor) {
        Some(end) => if end > cursor + 1 {
            Some(end)
        } else {
            None
        },
        None => None,
    }
}

/// The part of a numeric field that is read as a number: what stands in
/// front of the first decimal mark, or the whole field where there is no
/// mark or nothing in front of it.
pub open spec fn integer_text(field: Seq<char>) -> Seq<char> {
    match position_from(field, DECIMAL_MARK, 0) {
        Some(mark) => if mark > 0 {
            field.take(mark)
        } else {
            field
        },
        None => field,
    }
}

/// The number in the field behind `cursor` and the position of the separator
/// that closes it.
pub open spec fn integer_at(s: Seq<char>, cursor: int) -> Result<(u32, int), FieldError> {
    match field_end(s, cursor) {
        None => Err(FieldError::Absent),
        Some(end) => if end == cursor + 1 {
            Err(FieldError::Empty)
        } else {
            match decimal_value(integer_text(s.subrange(cursor + 1, end))) {
                Some(value) => Ok((value, end)),
                None => Err(FieldError::Unparseable),
            }
        },
    }
}

/// The timestamp in the field behind `cursor` and the position of the
/// separator that closes it.
pub open spec fn timestamp_at(s: Seq<char>, cursor: int) -> Option<(DateTime, int)> {
    match filled_field_end(s, cursor) {
        Some(end) => match parsed_timestamp(s.subrange(cursor + 1, end)) {
            Some(stamp) => Some((stamp, end)),
            None => None,
        },
        None => None,
    }
}

/// Where reading resumes after the field behind `cursor`: at the separator
/// that closes a number, else one position further on.
pub open spec fn next_cursor(s: Seq<char>, cursor: int) -> int {
    match integer_at(s, cursor) {
        Ok((_, end)) => end,
        Err(_) => cursor + 1,
    }
}

/// The number in the field behind `cursor`, or `fallback` where none is read.
pub open spec fn read_or(s: Seq<char>, cursor: int, fallback: u32) -> u32 {
    match integer_at(s, cursor) {
        Ok((value, _)) => value,
        Err(_) => fallback,
    }
}

/// The cursor in front of the `k`-th optional field, counted from 0, when the
/// first one is read behind `start`.
pub open spec fn optional_cursor(s: Seq<char>, start: int, k: nat) -> int
    decreases k,
{
    if k == 0 {
        start
    } else {
        next_cursor(s, optional_cursor(s, start, (k - 1) as nat))
    }
}

/// The `k`-th optional field of a record, in file order, counted from 0.
pub open spec fn optional_field(r: Record, k: int) -> u32 {
    r.number(k + 1)
}

/// `before` with its optional fields read one after the other, the first one
/// behind `start`.
pub open spec fn with_optional_fields(s: Seq<char>, start: int, before: Record) -> Record {
    Record {
        gluco_hist: read_or(s, optional_cursor(s, start, 0), before.gluco_hist),
        gluco_scanned: read_or(s, optional_cursor(s, start, 1), before.gluco_scanned),
        fast_insulin: read_or(s, optional_cursor(s, start, 2), before.fast_insulin),
        fast_insulin_non_numeric: read_or(
            s,
            optional_cursor(s, start, 3),
            before.fast_insulin_non_numeric,
        ),
        fast_insulin_units: read_or(s, optional_cursor(s, start, 4), before.fast_insulin_units),
        food: read_or(s, optional_cursor(s, start, 5), before.food),
        food_non_numeric: read_or(s, optional_cursor(s, start, 6), before.food_non_numeric),
        carbohydrate: read_or(s, optional_cursor(s, start, 7), before.carbohydrate),
        slow_insulin: read_or(s, optional_cursor(s, start, 8), before.slow_insulin),
        slow_insulin_non_numeric: read_or(
            s,
            optional_cursor(s, start, 9),
            before.slow_insulin_non_numeric,
        ),
        slow_insulin_units: read_or(s, optional_cursor(s, start, 10), before.slow_insulin_units),
        ..before
    }
}

/// What reading the record kind behind `cursor` and the optional fields
/// behind it makes of `before`.
pub open spec fn with_fields(s: Seq<char>, cursor: int, before: Record) -> Result<
    Record,
    LineParseError,
> {
    match integer_at(s, cursor) {
        Ok((kind, end)) => Ok(
            with_optional_fields(s, end, Record { line_type: kind, ..before }),
        ),
        Err(_) => Err(LineParseError::BadRecordKind),
    }
}

/// Mathematical model of a [`LineOutcome`].
pub struct Outcome {
    pub record: Record,
    pub error: Option<LineParseError>,
    pub reported: bool,
}

/// Whether a failure on the line with the 1-based number `ordinal` is worth
/// telling: the first two lines of a file are a preamble that is not data.
pub open spec fn is_reported(error: Option<LineParseError>, ordinal: int) -> bool {
    error is Some && ordinal > 2
}

/// What the line `s` with the 1-based number `ordinal` yields, where `stamp`
/// is what its timestamp field reads as.
pub open spec fn line_outcome(s: Seq<char>, ordinal: int, stamp: Option<DateTime>) -> Outcome {
    match position_from(s, SEPARATOR, 0) {
        None => failed(Record::blank(), LineParseError::NoSeparator, ordinal),
        Some(id_end) => {
            let named = Record { id: s.take(id_end), ..Record::blank() };
            match (filled_field_end(s, id_end), stamp) {
                (Some(stamp_end), Some(moment)) => {
                    let dated = Record { timestamp: moment, ..named };
                    match with_fields(s, stamp_end, dated) {
                        Ok(record) => Outcome { record, error: None, reported: false },
                        Err(error) => failed(dated, error, ordinal),
                    }
                },
                _ => failed(named, LineParseError::BadTimestamp, ordinal),
            }
        },
    }
}

/// The outcome of a line that failed with `error` after `record` was read.
pub open spec fn failed(record: Record, error: LineParseError, ordinal: int) -> Outcome {
    Outcome { record, error: Some(error), reported: is_reported(Some(error), ordinal) }
}

/// What the timestamp field of the line `s` reads as; `None` too where the
/// line has no such field.
pub open spec fn line_stamp(s: Seq<char>) -> Option<DateTime> {
    match position_from(s, SEPARATOR, 0) {
        Some(id_end) => match filled_field_end(s, id_end) {
            Some(stamp_end) => parsed_timestamp(s.subrange(id_end + 1, stamp_end)),
            None => None,
        },
        None => None,
    }
}

/// The cursor in front of the first optional field of the line `s`; `None`
/// unless id, timestamp and record kind can all be read.
pub open spec fn optional_start(s: Seq<char>, stamp: Option<DateTime>) -> Option<int> {
    match position_from(s, SEPARATOR, 0) {
        Some(id_end) => match (filled_field_end(s, id_end), stamp) {
            (Some(stamp_end), Some(_)) => match integer_at(s, stamp_end) {
                Ok((_, end)) => Some(end),
                Err(_) => None,
            },
            _ => None,
        },
        None => None,
    }
}

/// A line in which no separator follows the id fails with `NoSeparator`.
pub proof fn lemma_line_without_separator(s: Seq<char>, ordinal: int, stamp: Option<DateTime>)
    requires
        forall|i: int| 0 <= i < s.len() ==> s[i] != SEPARATOR,
    ensures
        line_outcome(s, ordinal, stamp).error == Some(LineParseError::NoSeparator),
        line_outcome(s, ordinal, stamp).record == Record::blank(),
{
    lemma_position_from(s, SEPARATOR, 0);
}

/// Only the three mandatory fields decide whether a line fails: a line whose
/// id, timestamp and record kind can be read yields a record, whatever its
/// optional fields hold, and is never reported.
pub proof fn lemma_mandatory_fields_decide(s: Seq<char>, ordinal: int, stamp: Option<DateTime>)
    ensures
        line_outcome(s, ordinal, stamp).error is None <==> optional_start(s, stamp) is Some,
        line_outcome(s, ordinal, stamp).reported <==> optional_start(s, stamp) is None && ordinal
            > 2,
{
}

/// In a line that yields a record, the `k`-th optional field holds the
/// number that was read for it, and zero where none could be read: an
/// empty, missing or malformed optional field stays absent.
pub proof fn lemma_optional_field(s: Seq<char>, ordinal: int, stamp: Option<DateTime>, k: nat)
    requires
        optional_start(s, stamp) is Some,
        k < OPTIONAL_FIELDS,
    ensures
        optional_field(line_outcome(s, ordinal, stamp).record, k as int) == read_or(
            s,
            optional_cursor(s, optional_start(s, stamp).unwrap(), k),
            0,
        ),
        integer_at(s, optional_cursor(s, optional_start(s, stamp).unwrap(), k)) is Err
            ==> optional_field(line_outcome(s, ordinal, stamp).record, k as int) == 0,
{
}

/// What became of one line: the record as far as it was read, the failure
/// that stopped the reading, and whether that failure is worth telling.
#[derive(Clone, Debug, PartialEq, Eq)]
pub struct LineOutcome {
    pub record: FsLibreLine,
    pub error: Option<LineParseError>,
    pub reported: bool,
}

impl View for LineOutcome {
    type V = Outcome;

    open spec fn view(&self) -> Outcome {
        Outcome { record: self.record@, error: self.error, reported: self.reported }
    }
}

impl LineOutcome {
    /// Whether the line yields no record.
    pub fn is_error(&self) -> (failed: bool)
        ensures
            failed == (self@.error is Some),
    {
        self.error.is_some()
    }
}

/// Finds the separator that closes the field behind `start_index`.
pub fn find_field_end(line: &str, start_index: usize) -> (end: Option<usize>)
    ensures
        match end {
            Some(e) => field_end(line@, start_index as int) == Some(e as int) && start_index < e
                < line@.len(),
            None => field_end(line@, start_index as int) is None,
        },
{
    let total: usize = line.unicode_len();
    if start_index >= total {
        None
    } else {
        proof {
            lemma_position_from(line@, SEPARATOR, start_index + 1);
        }
        find_char(line, SEPARATOR, start_index + 1)
    }
}

/// Reads the id: everything in front of the first separator is appended to
/// the record's id. Returns the position of that separator.
pub fn parse_id(line: &str, fs_libre_line: &mut FsLibreLine) -> (end: Result<
    usize,
    LineParseError,
>)
    ensures
        match end {
            Ok(e) => position_from(line@, SEPARATOR, 0) == Some(e as int) && final(fs_libre_line)@
                == (Record {
                id: old(fs_libre_line)@.id + line@.take(e as int),
                ..old(fs_libre_line)@
            }),
            Err(error) => error == LineParseError::NoSeparator && position_from(
                line@,
                SEPARATOR,
                0,
            ) is None && final(fs_libre_line)@ == old(fs_libre_line)@,
        },
{
    match find_char(line, SEPARATOR, 0) {
        Some(index) => {
            proof {
                lemma_position_from(line@, SEPARATOR, 0);
            }
            fs_libre_line.id.append(line.substring_char(0, index));
            Ok(index)
        },
        None => Err(LineParseError::NoSeparator),
    }
}

/// Reads the timestamp in the field behind `start_index` into the record.
/// Returns the position of the separator that closes the field.
pub fn parse_timestamp(line: &str, fs_libre_line: &mut FsLibreLine, start_index: usize) -> (end:
    Result<usize, LineParseError>)
    ensures
        match end {
            Ok(e) => timestamp_at(line@, start_index as int) == Some(
                (final(fs_libre_line)@.timestamp, e as int),
            ) && final(fs_libre_line)@ == (Record {
                timestamp: final(fs_libre_line)@.timestamp,
                ..old(fs_libre_line)@
            }),
            Err(error) => error == LineParseError::BadTimestamp && timestamp_at(
                line@,
                start_index as int,
            ) is None && final(fs_libre_line)@ == old(fs_libre_line)@,
        },
{
    match find_filled_field_end(line, start_index) {
        Some(index) => match Timestamp::parse(line.substring_char(start_index + 1, index)) {
            Some(stamp) => {
                fs_libre_line.timestamp = stamp;
                Ok(index)
            },
            None => Err(LineParseError::BadTimestamp),
        },
        None => Err(LineParseError::BadTimestamp),
    }
}

/// Reads the number in the field behind `start_index` into `target`.
/// Returns the position of the separator that closes the field. Where no
/// number is read, `target` keeps its value.
pub fn parse_integer(line: &str, target: &mut u32, start_index: usize) -> (end: Result<
    usize,
    FieldError,
>)
    ensures
        match end {
            Ok(e) => integer_at(line@, start_index as int) == Ok::<(u32, int), FieldError>(
                (*final(target), e as int),
            ) && start_index < e < line@.len(),
            Err(error) => integer_at(line@, start_index as int) == Err::<(u32, int), FieldError>(
                error,
            ) && *final(target) == *old(target),
        },
{
    match find_field_end(line, start_index) {
        Some(index) => {
            if index > start_index + 1 {
                let field = line.substring_char(start_index + 1, index);
                let number = match find_char(field, DECIMAL_MARK, 0) {
                    Some(mark) => {
                        proof {
                            lemma_position_from(field@, DECIMAL_MARK, 0);
                        }
                        if mark > 0 {
                            field.substring_char(0, mark)
                        } else {
                            field
                        }
                    },
                    None => field,
                };
                match parse_decimal(number) {
                    Some(value) => {
                        *target = value;
                        Ok(index)
                    },
                    None => Err(FieldError::Unparseable),
                }
            } else {
                Err(FieldError::Empty)
            }
        },
        None => Err(FieldError::Absent),
    }
}

/// The smaller of a cursor and the length of the line: every cursor at or
/// behind the end of a line reads the same, nothing.
spec fn clamped(cursor: int, len: nat) -> int {
    if cursor < len {
        cursor
    } else {
        len as int
    }
}

/// Reads one optional field into `target` and moves the cursor on.
fn parse_optional(line: &str, target: &mut u32, cursor: usize, Ghost(at): Ghost<int>) -> (next:
    usize)
    requires
        0 <= at,
        cursor == clamped(at, line@.len()),
    ensures
        *final(target) == read_or(line@, at, *old(target)),
        next == clamped(next_cursor(line@, at), line@.len()),
        0 <= next_cursor(line@, at),
{
    match parse_integer(line, target, cursor) {
        Ok(index) => index,
        Err(_) => {
            let total: usize = line.unicode_len();
            if cursor < total {
                cursor + 1
            } else {
                cursor
            }
        },
    }
}

/// Reads the record kind in the field behind `start_index` and the eleven
/// optional numbers behind it into the record. Only the record kind can
/// fail; an optional number that cannot be read keeps its value.
pub fn parse_fields(line: &str, fs_libre_line: &mut FsLibreLine, start_index: usize) -> (done:
    Result<(), LineParseError>)
    ensures
        match done {
            Ok(_) => with_fields(line@, start_index as int, old(fs_libre_line)@) == Ok::<
                Record,
                LineParseError,
            >(final(fs_libre_line)@),
            Err(error) => with_fields(line@, start_index as int, old(fs_libre_line)@) == Err::<
                Record,
                LineParseError,
            >(error) && final(fs_libre_line)@ == old(fs_libre_line)@,
        },
{
    let start: usize = match parse_integer(line, &mut fs_libre_line.line_type, start_index) {
        Ok(index) => index,
        Err(_) => {
            return Err(LineParseError::BadRecordKind);
        },
    };
    let ghost s = line@;
    let ghost at0 = start as int;
    proof {
        reveal_with_fuel(optional_cursor, 12);
    }
    let c1 = parse_optional(line, &mut fs_libre_line.gluco_hist, start, Ghost(at0));
    let ghost at1 = optional_cursor(s, at0, 1);
    let c2 = parse_optional(line, &mut fs_libre_line.gluco_scanned, c1, Ghost(at1));
    let ghost at2 = optional_cursor(s, at0, 2);
    let c3 = parse_optional(line, &mut fs_libre_line.fast_insulin, c2, Ghost(at2));
    let ghost at3 = optional_cursor(s, at0, 3);
    let c4 = parse_optional(line, &mut fs_libre_line.fast_insulin_non_numeric, c3, Ghost(at3));
    let ghost at4 = optional_cursor(s, at0, 4);
    let c5 = parse_optional(line, &mut fs_libre_line.fast_insulin_units, c4, Ghost(at4));
    let ghost at5 = optional_cursor(s, at0, 5);
    let c6 = parse_optional(line, &mut fs_libre_line.food, c5, Ghost(at5));
    let ghost at6 = optional_cursor(s, at0, 6);
    let c7 = parse_optional(line, &mut fs_libre_line.food_non_numeric, c6, Ghost(at6));
    let ghost at7 = optional_cursor(s, at0, 7);
    let c8 = parse_optional(line, &mut fs_libre_line.carbohydrate, c7, Ghost(at7));
    let ghost at8 = optional_cursor(s, at0, 8);
    let c9 = parse_optional(line, &mut fs_libre_line.slow_insulin, c8, Ghost(at8));
    let ghost at9 = optional_cursor(s, at0, 9);
    let c10 = parse_optional(line, &mut fs_libre_line.slow_insulin_non_numeric, c9, Ghost(at9));
    let ghost at10 = optional_cursor(s, at0, 10);
    let _ = parse_optional(line, &mut fs_libre_line.slow_insulin_units, c10, Ghost(at10));
    Ok(())
}

/// Wraps up a line: the record as far as it was read, and the failure.
fn conclude(record: FsLibreLine, error: Option<LineParseError>, line_counter: usize) -> (out:
    LineOutcome)
    ensures
        out@ == (Outcome {
            record: record@,
            error,
            reported: is_reported(error, line_counter as int),
        }),
{
    let reported = error.is_some() && line_counter > 2;
    LineOutcome { record, error, reported }
}

/// Finds the separator that closes the field behind `start_index`, where
/// that field holds at least one character.
pub fn find_filled_field_end(line: &str, start_index: usize) -> (end: Option<usize>)
    ensures
        match end {
            Some(e) => filled_field_end(line@, start_index as int) == Some(e as int) && start_index
                + 1 < e < line@.len(),
            None => filled_field_end(line@, start_index as int) is None,
        },
{
    match find_field_end(line, start_index) {
        Some(index) => if index > start_index + 1 {
            Some(index)
        } else {
            None
        },
        None => None,
    }
}

/// What the timestamp field of the line reads as; `None` too where the
/// line has no such field.
pub fn read_line_stamp(line: &str) -> (stamp: Option<Timestamp>)
    ensures
        stamp_view(stamp) == line_stamp(line@),
{
    proof {
        lemma_position_from(line@, SEPARATOR, 0);
    }
    match find_char(line, SEPARATOR, 0) {
        Some(id_end) => {
            let mut scratch = FsLibreLine::new();
            match parse_timestamp(line, &mut scratch, id_end) {
                Ok(_) => Some(scratch.timestamp),
                Err(_) => None,
            }
        },
        None => None,
    }
}

/// Reads one line whose timestamp field has been read already: `stamp` is
/// what that field reads as. `line_counter` is the number of the line in
/// its file, counted from 1.
///
/// The line yields a record unless it has no separator behind its id, its
/// timestamp field is missing, empty or no timestamp, or its record kind
/// cannot be read. A failure is reported from the third line on.
pub fn parse_line_with(line: &str, line_counter: usize, stamp: Option<Timestamp>) -> (out:
    LineOutcome)
    ensures
        out@ == line_outcome(line@, line_counter as int, stamp_view(stamp)),
        out@.error is None <==> optional_start(line@, stamp_view(stamp)) is Some,
        (forall|i: int| 0 <= i < line@.len() ==> line@[i] != SEPARATOR) ==> out@.error == Some(
            LineParseError::NoSeparator,
        ),
{
    proof {
        lemma_position_from(line@, SEPARATOR, 0);
        lemma_mandatory_fields_decide(line@, line_counter as int, stamp_view(stamp));
    }
    let mut fs_libre_line = FsLibreLine::new();
    let id_end: usize = match parse_id(line, &mut fs_libre_line) {
        Ok(index) => index,
        Err(error) => {
            return conclude(fs_libre_line, Some(error), line_counter);
        },
    };
    assert(fs_libre_line@.id =~= line@.take(id_end as int));
    let stamp_end: usize = match find_filled_field_end(line, id_end) {
        Some(index) => index,
        None => {
            return conclude(fs_libre_line, Some(LineParseError::BadTimestamp), line_counter);
        },
    };
    match stamp {
        Some(moment) => {
            fs_libre_line.timestamp = moment;
        },
        None => {
            return conclude(fs_libre_line, Some(LineParseError::BadTimestamp), line_counter);
        },
    }
    match parse_fields(line, &mut fs_libre_line, stamp_end) {
        Ok(_) => conclude(fs_libre_line, None, line_counter),
        Err(error) => conclude(fs_libre_line, Some(error), line_counter),
    }
}

/// Reads one line. `line_counter` is the number of the line in its file,
/// counted from 1.
///
/// The line yields a record unless its id, timestamp or record kind cannot
/// be read. A failure is reported from the third line on.
pub fn parse_line(line: &str, line_counter: usize) -> (out: LineOutcome)
    ensures
        out@ == line_outcome(line@, line_counter as int, line_stamp(line@)),
        out@.error is None <==> optional_start(line@, line_stamp(line@)) is Some,
        (forall|i: int| 0 <= i < line@.len() ==> line@[i] != SEPARATOR) ==> out@.error == Some(
            LineParseError::NoSeparator,
        ),
{
    let stamp = read_line_stamp(line);
    parse_line_with(line, line_counter, stamp)
}

/// A failure worth telling: the 1-based number of the line, and what failed.
#[derive(Clone, Copy, Debug, PartialEq, Eq, Structural)]
pub struct LineReport {
    pub line_counter: usize,
    pub error: LineParseError,
}

/// The records of a file and the failures worth telling, both in file order.
pub struct FileScan {
    pub records: Vec<FsLibreLine>,
    pub reports: Vec<LineReport>,
}

/// The outcome of the last of `lines`, numbered by its place among them.
pub open spec fn last_outcome(lines: Seq<Seq<char>>) -> Outcome {
    line_outcome(lines.last(), lines.len() as int, line_stamp(lines.last()))
}

/// The records that the lines of a file yield, in file order: one for each
/// line that does not fail.
pub open spec fn file_records(lines: Seq<Seq<char>>) -> Seq<Record>
    decreases lines.len(),
{
    if lines.len() == 0 {
        Seq::empty()
    } else if last_outcome(lines).error is None {
        file_records(lines.drop_last()).push(last_outcome(lines).record)
    } else {
        file_records(lines.drop_last())
    }
}

/// The failures of a file that are worth telling, in file order: one for
/// each line from the third on that fails.
pub open spec fn file_reports(lines: Seq<Seq<char>>) -> Seq<LineReport>
    decreases lines.len(),
{
    if lines.len() == 0 {
        Seq::empty()
    } else if last_outcome(lines).reported {
        file_reports(lines.drop_last()).push(
            LineReport {
                line_counter: lines.len() as usize,
                error: last_outcome(lines).error.unwrap(),
            },
        )
    } else {
        file_reports(lines.drop_last())
    }
}

/// Reads every line of a file. A line that fails yields no record, not even
/// a partial one, and never stops the reading.
pub fn scan_file(lines: &Vec<String>) -> (scan: FileScan)
    ensures
        scan.records.deep_view() == file_records(lines.deep_view()),
        scan.reports@ == file_reports(lines.deep_view()),
{
    let mut records: Vec<FsLibreLine> = Vec::new();
    let mut reports: Vec<LineReport> = Vec::new();
    let ghost all = lines.deep_view();
    let mut index: usize = 0;
    while index < lines.len()
        invariant
            index <= lines.len(),
            all == lines.deep_view(),
            records.deep_view() == file_records(all.take(index as int)),
            reports@ == file_reports(all.take(index as int)),
        decreases lines.len() - index,
    {
        let out = parse_line(lines[index].as_str(), index + 1);
        proof {
            let upto = all.take(index + 1);
            assert(upto.drop_last() =~= all.take(index as int));
            assert(upto.last() == lines[index as int]@);
        }
        let ghost before = records.deep_view();
        if out.reported {
            match out.error {
                Some(error) => {
                    reports.push(LineReport { line_counter: index + 1, error });
                },
                None => {},
            }
        }
        if out.error.is_none() {
            records.push(out.record);
            assert(records.deep_view() =~= before.push(out@.record));
        }
        index = index + 1;
    }
    assert(all.take(index as int) =~= all);
    FileScan { records, reports }
}

/// The records that the lines of a file yield, in file order.
pub fn parse_file(lines: &Vec<String>) -> (result: Vec<FsLibreLine>)
    ensures
        result.deep_view() == file_records(lines.deep_view()),
{
    scan_file(lines).records
}

} // verus!
