//! Writing records back in the form in which export files carry them.

use vstd::prelude::*;

use crate::model::{FsLibreLine, Record};
use crate::text::{decimal, push_decimal};

verus! {

/// An optional number as a field: its digits if it is present, then the
/// separator.
pub open spec fn optional_text(value: u32) -> Seq<char> {
    if value > 0 {
        decimal(value as nat) + seq!['\t']
    } else {
        seq!['\t']
    }
}

/// The three mandatory fields of a record: id, timestamp and record kind.
pub open spec fn mandatory_text(r: Record) -> Seq<char> {
    r.id + seq!['\t'] + r.timestamp.stamp_text() + seq!['\t'] + decimal(r.line_type as nat)
        + seq!['\t']
}

/// The two glucose fields of a record.
pub open spec fn glucose_text(r: Record) -> Seq<char> {
    optional_text(r.gluco_hist) + optional_text(r.gluco_scanned)
}

/// The three fast-insulin fields of a record.
pub open spec fn fast_insulin_text(r: Record) -> Seq<char> {
    optional_text(r.fast_insulin) + optional_text(r.fast_insulin_non_numeric) + optional_text(
        r.fast_insulin_units,
    )
}

/// The two food fields and the carbohydrate field of a record.
pub open spec fn food_text(r: Record) -> Seq<char> {
    optional_text(r.food) + optional_text(r.food_non_numeric) + optional_text(r.carbohydrate)
}

/// The three slow-insulin fields of a record.
pub open spec fn slow_insulin_text(r: Record) -> Seq<char> {
    optional_text(r.slow_insulin) + optional_text(r.slow_insulin_non_numeric) + optional_text(
        r.slow_insulin_units,
    )
}

/// A record as one line: id, timestamp and record kind, then the eleven
/// optional numbers in file order, every field closed by a tab, and a line
/// feed.
pub open spec fn line_text(r: Record) -> Seq<char> {
    mandatory_text(r) + glucose_text(r) + fast_insulin_text(r) + food_text(r) + slow_insulin_text(
        r,
    ) + seq!['\n']
}

/// The lines of all records, one behind the other.
pub open spec fn file_text(data: Seq<Record>) -> Seq<char>
    decreases data.len(),
{
    if data.len() == 0 {
        Seq::empty()
    } else {
        file_text(data.drop_last()) + line_text(data.last())
    }
}

/// Appends an optional number as a field.
fn push_optional(out: &mut String, value: u32)
    ensures
        final(out)@ == old(out)@ + optional_text(value),
{
    proof {
        reveal_strlit("\t");
    }
    if value > 0 {
        push_decimal(out, value);
    }
    out.append("\t");
    assert(out@ =~= old(out)@ + optional_text(value));
}

/// Appends the three mandatory fields of a record.
fn push_mandatory(out: &mut String, line: &FsLibreLine)
    ensures
        final(out)@ == old(out)@ + mandatory_text(line@),
{
    proof {
        reveal_strlit("\t");
    }
    out.append(line.id.as_str());
    out.append("\t");
    let stamp = line.timestamp.stamp_text();
    out.append(stamp.as_str());
    out.append("\t");
    let ghost before = out@;
    push_decimal(out, line.line_type);
    out.append("\t");
    assert(before =~= old(out)@ + line@.id + seq!['\t'] + line@.timestamp.stamp_text() + seq![
        '\t',
    ]);
    assert(out@ =~= old(out)@ + mandatory_text(line@));
}

/// Appends three optional numbers as fields.
fn push_three(out: &mut String, first: u32, second: u32, third: u32)
    ensures
        final(out)@ == old(out)@ + (optional_text(first) + optional_text(second) + optional_text(
            third,
        )),
{
    push_optional(out, first);
    push_optional(out, second);
    push_optional(out, third);
    assert(out@ =~= old(out)@ + (optional_text(first) + optional_text(second) + optional_text(
        third,
    )));
}

/// Appends a record as one line.
pub fn push_line(out: &mut String, line: &FsLibreLine)
    ensures
        final(out)@ == old(out)@ + line_text(line@),
{
    proof {
        reveal_strlit("\n");
    }
    push_mandatory(out, line);
    let ghost a = out@;
    push_optional(out, line.gluco_hist);
    push_optional(out, line.gluco_scanned);
    let ghost b = out@;
    assert(b =~= a + glucose_text(line@));
    push_three(out, line.fast_insulin, line.fast_insulin_non_numeric, line.fast_insulin_units);
    let ghost c = out@;
    push_three(out, line.food, line.food_non_numeric, line.carbohydrate);
    let ghost d = out@;
    push_three(out, line.slow_insulin, line.slow_insulin_non_numeric, line.slow_insulin_units);
    let ghost e = out@;
    out.append("\n");
    assert(c == b + fast_insulin_text(line@));
    assert(d == c + food_text(line@));
    assert(e == d + slow_insulin_text(line@));
    assert(out@ =~= old(out)@ + line_text(line@));
}

/// The records as the text of a file, one line each, in their order.
pub fn debug_print_file(data: &Vec<FsLibreLine>) -> (text: String)
    ensures
        text@ == file_text(data.deep_view()),
{
    let ghost all = data.deep_view();
    let mut text = String::new();
    let mut index: usize = 0;
    while index < data.len()
        invariant
            index <= data.len(),
            all == data.deep_view(),
            text@ == file_text(all.take(index as int)),
        decreases data.len() - index,
    {
        proof {
            let upto = all.take(index + 1);
            assert(upto.drop_last() =~= all.take(index as int));
            assert(upto.last() == data[index as int]@);
        }
        push_line(&mut text, &data[index]);
        index = index + 1;
    }
    assert(all.take(index as int) =~= all);
    text
}

} // verus!
