//! The temporal normaliser: order records by time, fold records of one
//! minute into one, and cut the result into days.

use vstd::prelude::*;

use crate::model::{first_present, pick, FsLibreLine, Record};
use crate::time::DateTime;

verus! {

/// No record stands in front of an earlier one.
pub open spec fn in_order(s: Seq<Record>) -> bool {
    forall|i: int, j: int|
        0 <= i < j < s.len() ==> !(#[trigger] s[j]).timestamp.is_before((#[trigger] s[i]).timestamp)
}

/// Every record is earlier than the ones behind it.
pub open spec fn strictly_in_order(s: Seq<Record>) -> bool {
    forall|i: int, j: int|
        0 <= i < j < s.len() ==> (#[trigger] s[i]).timestamp.is_before((#[trigger] s[j]).timestamp)
}

/// `s` with `r` put behind the last record that is not later than `r`.
pub open spec fn inserted(s: Seq<Record>, r: Record) -> Seq<Record>
    decreases s.len(),
{
    if s.len() > 0 && r.timestamp.is_before(s.last().timestamp) {
        inserted(s.drop_last(), r).push(s.last())
    } else {
        s.push(r)
    }
}

/// The records of `s` in ascending order of time, records of one minute in
/// the order in which they stand in `s`.
pub open spec fn sorted_by_time(s: Seq<Record>) -> Seq<Record>
    decreases s.len(),
{
    if s.len() == 0 {
        s
    } else {
        inserted(sorted_by_time(s.drop_last()), s.last())
    }
}

/// The records of `s` that carry the timestamp `at`, in their order in `s`.
pub open spec fn records_at(s: Seq<Record>, at: DateTime) -> Seq<Record> {
    s.filter(|r: Record| r.timestamp == at)
}

/// Where `inserted` puts `r` into `s`: behind the last record of `s` that
/// is not later than `r`.
pub open spec fn insertion_point(s: Seq<Record>, r: Record) -> int
    decreases s.len(),
{
    if s.len() > 0 && r.timestamp.is_before(s.last().timestamp) {
        insertion_point(s.drop_last(), r)
    } else {
        s.len() as int
    }
}

/// `inserted` puts the record at the insertion point and moves nothing else.
/// In an ordered sequence nothing in front of that point is later than the
/// record, and everything behind it is.
pub proof fn lemma_inserted(s: Seq<Record>, r: Record)
    ensures
        0 <= insertion_point(s, r) <= s.len(),
        inserted(s, r) == s.insert(insertion_point(s, r), r),
        forall|i: int|
            insertion_point(s, r) <= i < s.len() ==> r.timestamp.is_before(
                (#[trigger] s[i]).timestamp,
            ),
        in_order(s) ==> forall|i: int|
            0 <= i < insertion_point(s, r) ==> !r.timestamp.is_before((#[trigger] s[i]).timestamp),
    decreases s.len(),
{
    let at = insertion_point(s, r);
    if s.len() > 0 && r.timestamp.is_before(s.last().timestamp) {
        let front = s.drop_last();
        lemma_inserted(front, r);
        assert(inserted(s, r) =~= s.insert(at, r));
        assert forall|i: int| at <= i < s.len() implies r.timestamp.is_before(
            (#[trigger] s[i]).timestamp,
        ) by {
            if i < s.len() - 1 {
                assert(s[i] == front[i]);
            }
        }
        if in_order(s) {
            assert forall|i: int, j: int| 0 <= i < j < front.len() implies !(
            #[trigger] front[j]).timestamp.is_before((#[trigger] front[i]).timestamp) by {
                assert(front[i] == s[i] && front[j] == s[j]);
            }
            assert forall|i: int| 0 <= i < at implies !r.timestamp.is_before(
                (#[trigger] s[i]).timestamp,
            ) by {
                assert(s[i] == front[i]);
            }
        }
    } else {
        assert(inserted(s, r) =~= s.insert(at, r));
        if in_order(s) {
            assert forall|i: int| 0 <= i < at implies !r.timestamp.is_before(
                (#[trigger] s[i]).timestamp,
            ) by {
                if i < at - 1 {
                    assert(!s[at - 1].timestamp.is_before(s[i].timestamp));
                }
            }
        }
    }
}

/// Inserting into an ordered sequence leaves it ordered.
pub proof fn lemma_inserted_in_order(s: Seq<Record>, r: Record)
    requires
        in_order(s),
    ensures
        in_order(inserted(s, r)),
        inserted(s, r).len() == s.len() + 1,
{
    lemma_inserted(s, r);
    let at = insertion_point(s, r);
    let out = inserted(s, r);
    assert forall|i: int, j: int| 0 <= i < j < out.len() implies !(#[trigger] out[j]).timestamp.is_before(
        (#[trigger] out[i]).timestamp,
    ) by {
        if i < at && j > at {
            assert(out[i] == s[i] && out[j] == s[j - 1]);
            if i < j - 1 {
                assert(!s[j - 1].timestamp.is_before(s[i].timestamp));
            }
        } else if i < at && j == at {
            assert(out[i] == s[i]);
        } else if i < at && j < at {
            assert(out[i] == s[i] && out[j] == s[j]);
        } else if i == at {
            assert(out[j] == s[j - 1]);
        } else {
            assert(out[i] == s[i - 1] && out[j] == s[j - 1]);
        }
    }
}

/// Sorting puts the records in order and keeps their number.
pub proof fn lemma_sorted_in_order(s: Seq<Record>)
    ensures
        in_order(sorted_by_time(s)),
        sorted_by_time(s).len() == s.len(),
    decreases s.len(),
{
    if s.len() > 0 {
        lemma_sorted_in_order(s.drop_last());
        lemma_inserted_in_order(sorted_by_time(s.drop_last()), s.last());
    }
}

/// Sorting keeps every record, as often as it occurs.
pub proof fn lemma_sorted_same_records(s: Seq<Record>)
    ensures
        sorted_by_time(s).to_multiset() == s.to_multiset(),
    decreases s.len(),
{
    broadcast use vstd::seq_lib::group_to_multiset_ensures;

    if s.len() > 0 {
        let front = s.drop_last();
        let done = sorted_by_time(front);
        lemma_sorted_same_records(front);
        lemma_sorted_in_order(front);
        lemma_inserted(done, s.last());
        assert(front.push(s.last()) =~= s);
        assert(sorted_by_time(s).to_multiset() =~= s.to_multiset());
    }
}

/// Sorting is stable: the records of any one minute keep the order in which
/// they came.
pub proof fn lemma_sorted_stable(s: Seq<Record>, at: DateTime)
    ensures
        records_at(sorted_by_time(s), at) == records_at(s, at),
    decreases s.len(),
{
    if s.len() > 0 {
        let front = s.drop_last();
        let done = sorted_by_time(front);
        let r = s.last();
        let pred = |r: Record| r.timestamp == at;
        lemma_sorted_stable(front, at);
        lemma_sorted_in_order(front);
        lemma_inserted(done, r);
        let cut = insertion_point(done, r);
        let head = done.take(cut);
        let tail = done.skip(cut);
        assert(head + tail =~= done);
        assert(head.push(r) + tail =~= done.insert(cut, r));
        Seq::filter_distributes_over_add(head, tail, pred);
        Seq::filter_distributes_over_add(head.push(r), tail, pred);
        Seq::lemma_filter_push(head, r, pred);
        Seq::lemma_filter_push(front, r, pred);
        assert(front.push(r) =~= s);
        if r.timestamp == at {
            assert forall|i: int| 0 <= i < tail.len() implies !pred(#[trigger] tail[i]) by {
                assert(tail[i] == done[cut + i]);
            }
            lemma_filter_nothing(tail, pred);
            assert(head.filter(pred).push(r) + Seq::<Record>::empty() =~= (head.filter(pred)
                + Seq::<Record>::empty()).push(r));
        }
    }
}

/// Filtering a sequence in which nothing matches leaves nothing.
proof fn lemma_filter_nothing(s: Seq<Record>, pred: spec_fn(Record) -> bool)
    requires
        forall|i: int| 0 <= i < s.len() ==> !pred(#[trigger] s[i]),
    ensures
        s.filter(pred) == Seq::<Record>::empty(),
    decreases s.len(),
{
    reveal(Seq::filter);
    if s.len() > 0 {
        lemma_filter_nothing(s.drop_last(), pred);
    }
}

/// Sorting changes nothing in a sequence that is in order already.
pub proof fn lemma_sorted_fixed_point(s: Seq<Record>)
    requires
        in_order(s),
    ensures
        sorted_by_time(s) == s,
    decreases s.len(),
{
    if s.len() > 0 {
        let front = s.drop_last();
        assert forall|i: int, j: int| 0 <= i < j < front.len() implies !front[j].timestamp.is_before(
            front[i].timestamp,
        ) by {
            assert(front[i] == s[i] && front[j] == s[j]);
        }
        lemma_sorted_fixed_point(front);
        if front.len() > 0 {
            assert(front.last() == s[s.len() - 2]);
            assert(!s[s.len() - 1].timestamp.is_before(s[s.len() - 2].timestamp));
        }
        assert(front.push(s.last()) =~= s);
    }
}

/// The record that two records of one minute fold into: every field is
/// that of `current` where `current` has it, else that of `previous`.
pub open spec fn merge_pair(previous: Record, current: Record) -> Record {
    Record {
        id: if current.id.len() > 0 {
            current.id
        } else {
            previous.id
        },
        timestamp: current.timestamp,
        line_type: first_present(current.line_type, previous.line_type),
        gluco_hist: first_present(current.gluco_hist, previous.gluco_hist),
        gluco_scanned: first_present(current.gluco_scanned, previous.gluco_scanned),
        fast_insulin: first_present(current.fast_insulin, previous.fast_insulin),
        fast_insulin_non_numeric: first_present(
            current.fast_insulin_non_numeric,
            previous.fast_insulin_non_numeric,
        ),
        fast_insulin_units: first_present(current.fast_insulin_units, previous.fast_insulin_units),
        food: first_present(current.food, previous.food),
        food_non_numeric: first_present(current.food_non_numeric, previous.food_non_numeric),
        carbohydrate: first_present(current.carbohydrate, previous.carbohydrate),
        slow_insulin: first_present(current.slow_insulin, previous.slow_insulin),
        slow_insulin_non_numeric: first_present(
            current.slow_insulin_non_numeric,
            previous.slow_insulin_non_numeric,
        ),
        slow_insulin_units: first_present(current.slow_insulin_units, previous.slow_insulin_units),
    }
}

/// `done` with `current` taken in: folded into the last record of `done`
/// where that one carries the same timestamp, else put behind it.
pub open spec fn absorbed(done: Seq<Record>, current: Record) -> Seq<Record> {
    if done.len() > 0 && done.last().timestamp == current.timestamp {
        done.drop_last().push(merge_pair(done.last(), current))
    } else {
        done.push(current)
    }
}

/// `s` with every run of records of one minute folded into one record, from
/// the first of the run to the last. Each record is only ever held against
/// the one record in front of it in the result.
pub open spec fn merged(s: Seq<Record>) -> Seq<Record>
    decreases s.len(),
{
    if s.len() == 0 {
        s
    } else {
        absorbed(merged(s.drop_last()), s.last())
    }
}

/// No two neighbours carry the same timestamp.
pub open spec fn distinct_neighbours(s: Seq<Record>) -> bool {
    forall|i: int| 0 <= i < s.len() - 1 ==> (#[trigger] s[i]).timestamp != s[i + 1].timestamp
}

/// The last value in `values` that is present (not zero); zero if none is.
pub open spec fn last_present(values: Seq<u32>) -> u32
    decreases values.len(),
{
    if values.len() == 0 {
        0
    } else if values.last() != 0 {
        values.last()
    } else {
        last_present(values.drop_last())
    }
}

/// The `k`-th number of every record of `s`, in the order of `s`.
pub open spec fn numbers_of(s: Seq<Record>, k: int) -> Seq<u32> {
    Seq::new(s.len(), |i: int| s[i].number(k))
}

/// Folding is field by field: every number of the folded record is that of
/// the later record where it has one, else that of the earlier.
pub proof fn lemma_merge_pair_numbers(previous: Record, current: Record, k: int)
    ensures
        merge_pair(previous, current).number(k) == first_present(
            current.number(k),
            previous.number(k),
        ),
        merge_pair(previous, current).timestamp == current.timestamp,
{
}

/// Merging ends on the timestamp on which the input ends, and leaves no two
/// neighbours with the same timestamp.
pub proof fn lemma_merged_neighbours(s: Seq<Record>)
    ensures
        merged(s).len() <= s.len(),
        s.len() > 0 ==> merged(s).len() > 0 && merged(s).last().timestamp == s.last().timestamp,
        distinct_neighbours(merged(s)),
    decreases s.len(),
{
    if s.len() > 0 {
        let done = merged(s.drop_last());
        lemma_merged_neighbours(s.drop_last());
        let out = merged(s);
        assert forall|i: int| 0 <= i < out.len() - 1 implies (#[trigger] out[i]).timestamp
            != out[i + 1].timestamp by {
            if i < done.len() - 1 {
                assert(done[i].timestamp != done[i + 1].timestamp);
            }
        }
    }
}

/// Merging keeps time order, and makes it strict: after it every record is
/// earlier than the ones behind it.
pub proof fn lemma_merged_in_order(s: Seq<Record>)
    requires
        in_order(s),
    ensures
        strictly_in_order(merged(s)),
        in_order(merged(s)),
    decreases s.len(),
{
    if s.len() > 0 {
        let front = s.drop_last();
        let done = merged(front);
        assert forall|i: int, j: int| 0 <= i < j < front.len() implies !(
        #[trigger] front[j]).timestamp.is_before((#[trigger] front[i]).timestamp) by {
            assert(front[i] == s[i] && front[j] == s[j]);
        }
        lemma_merged_in_order(front);
        lemma_merged_neighbours(front);
        let out = merged(s);
        if front.len() > 0 {
            assert(front.last() == s[s.len() - 2]);
            assert(!s[s.len() - 1].timestamp.is_before(s[s.len() - 2].timestamp));
        }
        assert forall|i: int, j: int| 0 <= i < j < out.len() implies (#[trigger] out[i]).timestamp.is_before(
            (#[trigger] out[j]).timestamp,
        ) by {
            if j < done.len() - 1 {
                assert(done[i].timestamp.is_before(done[j].timestamp));
            } else if j == done.len() - 1 {
                assert(done[i].timestamp.is_before(done[j].timestamp));
            } else {
                if i < done.len() - 1 {
                    assert(done[i].timestamp.is_before(done[done.len() - 1].timestamp));
                }
            }
        }
    }
}

/// Merging changes nothing where no two neighbours share a timestamp.
pub proof fn lemma_merged_fixed_point(s: Seq<Record>)
    requires
        distinct_neighbours(s),
    ensures
        merged(s) == s,
    decreases s.len(),
{
    if s.len() > 0 {
        let front = s.drop_last();
        assert forall|i: int| 0 <= i < front.len() - 1 implies (#[trigger] front[i]).timestamp
            != front[i + 1].timestamp by {
            assert(front[i] == s[i] && front[i + 1] == s[i + 1]);
        }
        lemma_merged_fixed_point(front);
        if front.len() > 0 {
            assert(s[s.len() - 2].timestamp != s[s.len() - 2 + 1].timestamp);
        }
        assert(front.push(s.last()) =~= s);
    }
}

/// A run of records of one minute folds into a single record, in which
/// every number is the last one present in the run: a later record
/// overrides an earlier one only where it has a value of its own.
pub proof fn lemma_merged_run(s: Seq<Record>, k: int)
    requires
        s.len() > 0,
        forall|i: int| 0 <= i < s.len() ==> (#[trigger] s[i]).timestamp == s[0].timestamp,
    ensures
        merged(s).len() == 1,
        merged(s)[0].timestamp == s[0].timestamp,
        merged(s)[0].number(k) == last_present(numbers_of(s, k)),
    decreases s.len(),
{
    let values = numbers_of(s, k);
    let front = s.drop_last();
    assert(values.drop_last() =~= numbers_of(front, k));
    assert(values.last() == s.last().number(k));
    if s.len() == 1 {
        assert(merged(front) =~= Seq::<Record>::empty());
        assert(last_present(values.drop_last()) == 0);
    } else {
        assert(front[0] == s[0]);
        assert forall|i: int| 0 <= i < front.len() implies (#[trigger] front[i]).timestamp
            == front[0].timestamp by {
            assert(front[i] == s[i]);
        }
        lemma_merged_run(front, k);
        assert(merged(front).last() == merged(front)[0]);
        lemma_merge_pair_numbers(merged(front)[0], s.last(), k);
    }
}

/// The temporal normal form of `s`: sorted by time, then merged.
pub open spec fn normalized(s: Seq<Record>) -> Seq<Record> {
    merged(sorted_by_time(s))
}

/// Normalising is idempotent: in a normalised sequence every record is
/// earlier than the ones behind it, so that sorting moves nothing and
/// merging folds nothing.
pub proof fn lemma_normalized_idempotent(s: Seq<Record>)
    ensures
        strictly_in_order(normalized(s)),
        sorted_by_time(normalized(s)) == normalized(s),
        merged(normalized(s)) == normalized(s),
        normalized(normalized(s)) == normalized(s),
{
    lemma_sorted_in_order(s);
    lemma_merged_in_order(sorted_by_time(s));
    lemma_merged_neighbours(sorted_by_time(s));
    lemma_sorted_fixed_point(normalized(s));
    lemma_merged_fixed_point(normalized(s));
}

/// Folds two records of one minute into one.
pub fn merge_lines(previous: &FsLibreLine, current: &FsLibreLine) -> (unified: FsLibreLine)
    ensures
        unified@ == merge_pair(previous@, current@),
{
    FsLibreLine {
        id: if current.id.as_str().is_empty() {
            previous.id.clone()
        } else {
            current.id.clone()
        },
        timestamp: current.timestamp,
        line_type: pick(current.line_type, previous.line_type),
        gluco_hist: pick(current.gluco_hist, previous.gluco_hist),
        gluco_scanned: pick(current.gluco_scanned, previous.gluco_scanned),
        fast_insulin: pick(current.fast_insulin, previous.fast_insulin),
        fast_insulin_non_numeric: pick(
            current.fast_insulin_non_numeric,
            previous.fast_insulin_non_numeric,
        ),
        fast_insulin_units: pick(current.fast_insulin_units, previous.fast_insulin_units),
        food: pick(current.food, previous.food),
        food_non_numeric: pick(current.food_non_numeric, previous.food_non_numeric),
        carbohydrate: pick(current.carbohydrate, previous.carbohydrate),
        slow_insulin: pick(current.slow_insulin, previous.slow_insulin),
        slow_insulin_non_numeric: pick(
            current.slow_insulin_non_numeric,
            previous.slow_insulin_non_numeric,
        ),
        slow_insulin_units: pick(current.slow_insulin_units, previous.slow_insulin_units),
    }
}

/// Folds every run of records of one minute into one record.
pub fn unify_timestamps(data: &Vec<FsLibreLine>) -> (unified: Vec<FsLibreLine>)
    ensures
        unified.deep_view() == merged(data.deep_view()),
        distinct_neighbours(unified.deep_view()),
        in_order(data.deep_view()) ==> strictly_in_order(unified.deep_view()),
{
    let ghost all = data.deep_view();
    let mut unified: Vec<FsLibreLine> = Vec::new();
    let mut index: usize = 0;
    while index < data.len()
        invariant
            index <= data.len(),
            all == data.deep_view(),
            unified.deep_view() == merged(all.take(index as int)),
        decreases data.len() - index,
    {
        let line = &data[index];
        let ghost done = unified.deep_view();
        proof {
            let upto = all.take(index + 1);
            assert(upto.drop_last() =~= all.take(index as int));
            assert(upto.last() == line@);
        }
        let count: usize = unified.len();
        if count > 0 && unified[count - 1].timestamp.same_as(&line.timestamp) {
            let folded = merge_lines(&unified[count - 1], line);
            unified.set(count - 1, folded);
            assert(unified.deep_view() =~= done.drop_last().push(merge_pair(done.last(), line@)));
        } else {
            unified.push(line.duplicate());
            assert(unified.deep_view() =~= done.push(line@));
        }
        index = index + 1;
    }
    proof {
        assert(all.take(index as int) =~= all);
        lemma_merged_neighbours(all);
        if in_order(all) {
            lemma_merged_in_order(all);
        }
    }
    unified
}

/// Whether two timestamps fall on the same day for the purpose of cutting
/// a sequence into days. Only the day of the month is compared: two days
/// with one number in different months count as the same day.
pub open spec fn same_day(a: DateTime, b: DateTime) -> bool {
    a.day == b.day
}

/// `s` cut into its maximal runs of neighbours that fall on the same day.
pub open spec fn day_groups(s: Seq<Record>) -> Seq<Seq<Record>>
    decreases s.len(),
{
    if s.len() == 0 {
        Seq::empty()
    } else if s.len() >= 2 && same_day(s[s.len() - 2].timestamp, s.last().timestamp) {
        let groups = day_groups(s.drop_last());
        groups.drop_last().push(groups.last().push(s.last()))
    } else {
        day_groups(s.drop_last()).push(seq![s.last()])
    }
}

/// The groups put one behind the other.
pub open spec fn joined(groups: Seq<Seq<Record>>) -> Seq<Record>
    decreases groups.len(),
{
    if groups.len() == 0 {
        Seq::empty()
    } else {
        joined(groups.drop_last()) + groups.last()
    }
}

/// Cutting into days loses and moves nothing, leaves no group empty, keeps
/// every group on one day, and starts a new group only where the day
/// changes.
pub proof fn lemma_day_groups(s: Seq<Record>)
    ensures
        joined(day_groups(s)) == s,
        s.len() > 0 ==> day_groups(s).len() > 0 && day_groups(s).last().len() > 0
            && day_groups(s).last().last() == s.last(),
        forall|g: int| 0 <= g < day_groups(s).len() ==> (#[trigger] day_groups(s)[g]).len() > 0,
        forall|g: int, i: int, j: int|
            0 <= g < day_groups(s).len() && 0 <= i < day_groups(s)[g].len() && 0 <= j
                < day_groups(s)[g].len() ==> same_day(
                (#[trigger] day_groups(s)[g][i]).timestamp,
                (#[trigger] day_groups(s)[g][j]).timestamp,
            ),
        forall|g: int|
            0 <= g < day_groups(s).len() - 1 ==> !same_day(
                (#[trigger] day_groups(s)[g]).last().timestamp,
                day_groups(s)[g + 1][0].timestamp,
            ),
    decreases s.len(),
{
    if s.len() > 0 {
        let front = s.drop_last();
        let before = day_groups(front);
        let out = day_groups(s);
        lemma_day_groups(front);
        if s.len() >= 2 && same_day(s[s.len() - 2].timestamp, s.last().timestamp) {
            assert(front.last() == s[s.len() - 2]);
            let last = before.last().push(s.last());
            assert(out == before.drop_last().push(last));
            assert(out.drop_last() =~= before.drop_last());
            assert(joined(out) =~= joined(before.drop_last()) + before.last() + seq![s.last()]);
            assert(joined(out) =~= s);
            assert forall|g: int, i: int, j: int|
                0 <= g < out.len() && 0 <= i < out[g].len() && 0 <= j < out[g].len() implies same_day(
                (#[trigger] out[g][i]).timestamp,
                (#[trigger] out[g][j]).timestamp,
            ) by {
                if g < out.len() - 1 {
                    assert(out[g] == before[g]);
                    assert(same_day(before[g][i].timestamp, before[g][j].timestamp));
                } else {
                    let group = before[g];
                    let end = group.len() - 1;
                    let a = if i <= end {
                        i
                    } else {
                        end
                    };
                    let b = if j <= end {
                        j
                    } else {
                        end
                    };
                    assert(same_day(group[a].timestamp, group[end].timestamp));
                    assert(same_day(group[b].timestamp, group[end].timestamp));
                    assert(same_day(group[a].timestamp, group[b].timestamp));
                }
            }
            assert forall|g: int| 0 <= g < out.len() - 1 implies !same_day(
                (#[trigger] out[g]).last().timestamp,
                out[g + 1][0].timestamp,
            ) by {
                assert(out[g] == before[g]);
                assert(!same_day(before[g].last().timestamp, before[g + 1][0].timestamp));
                if g + 1 == out.len() - 1 {
                    assert(out[g + 1][0] == before[g + 1][0]);
                } else {
                    assert(out[g + 1] == before[g + 1]);
                }
            }
        } else {
            assert(out.drop_last() =~= before);
            assert(joined(out) =~= s);
            assert forall|g: int, i: int, j: int|
                0 <= g < out.len() && 0 <= i < out[g].len() && 0 <= j < out[g].len() implies same_day(
                (#[trigger] out[g][i]).timestamp,
                (#[trigger] out[g][j]).timestamp,
            ) by {
                if g < out.len() - 1 {
                    assert(out[g] == before[g]);
                    assert(same_day(before[g][i].timestamp, before[g][j].timestamp));
                }
            }
            assert forall|g: int| 0 <= g < out.len() - 1 implies !same_day(
                (#[trigger] out[g]).last().timestamp,
                out[g + 1][0].timestamp,
            ) by {
                assert(out[g] == before[g]);
                if g + 1 == out.len() - 1 {
                    assert(front.last() == s[s.len() - 2]);
                } else {
                    assert(out[g + 1] == before[g + 1]);
                    assert(!same_day(before[g].last().timestamp, before[g + 1][0].timestamp));
                }
            }
        }
    }
}

/// Cuts the records into days: each group is a maximal run of neighbours
/// with the same day of the month.
pub fn split_days(data: &Vec<FsLibreLine>) -> (days: Vec<Vec<FsLibreLine>>)
    ensures
        days.deep_view() == day_groups(data.deep_view()),
        joined(days.deep_view()) == data.deep_view(),
        forall|g: int| 0 <= g < days.len() ==> (#[trigger] days[g]).len() > 0,
{
    let ghost all = data.deep_view();
    let mut days: Vec<Vec<FsLibreLine>> = Vec::new();
    let mut data_of_day: Vec<FsLibreLine> = Vec::new();
    let mut index: usize = 0;
    while index < data.len()
        invariant
            index <= data.len(),
            all == data.deep_view(),
            index == 0 ==> days.len() == 0 && data_of_day.len() == 0,
            index > 0 ==> days.deep_view().push(data_of_day.deep_view()) == day_groups(
                all.take(index as int),
            ),
        decreases data.len() - index,
    {
        let line = &data[index];
        let ghost closed = days.deep_view();
        let ghost open = data_of_day.deep_view();
        proof {
            let upto = all.take(index + 1);
            assert(upto.drop_last() =~= all.take(index as int));
            assert(upto.last() == line@);
            if index > 0 {
                assert(upto[upto.len() - 2] == data[index - 1]@);
                assert(closed.push(open).drop_last() =~= closed);
            }
        }
        if index > 0 && data[index - 1].timestamp.day() != line.timestamp.day() {
            days.push(data_of_day);
            data_of_day = Vec::new();
            assert(days.deep_view() =~= closed.push(open));
            assert(data_of_day.deep_view() =~= Seq::<Record>::empty());
        }
        let ghost started = data_of_day.deep_view();
        data_of_day.push(line.duplicate());
        proof {
            assert(data_of_day.deep_view() =~= started.push(line@));
            if index == 0 {
                assert(days.deep_view() =~= Seq::<Seq<Record>>::empty());
                assert(started.push(line@) =~= seq![line@]);
            } else if started.len() == 0 {
                assert(started.push(line@) =~= seq![line@]);
            }
        }
        index = index + 1;
    }
    if index > 0 {
        let ghost closed = days.deep_view();
        let ghost open = data_of_day.deep_view();
        days.push(data_of_day);
        assert(days.deep_view() =~= closed.push(open));
    } else {
        assert(days.deep_view() =~= Seq::<Seq<Record>>::empty());
    }
    proof {
        assert(all.take(index as int) =~= all);
        lemma_day_groups(all);
        assert forall|g: int| 0 <= g < days.len() implies (#[trigger] days[g]).len() > 0 by {
            assert(days.deep_view()[g].len() == days[g].len());
        }
    }
    days
}

/// Orders the records by time. Records of one minute keep the order in
/// which they came. Every record is moved to its place among the ones in
/// front of it: quick on a file that is nearly in order, quadratic on one
/// that is not.
pub fn sort_by_timestamp(data: &mut Vec<FsLibreLine>)
    ensures
        final(data).deep_view() == sorted_by_time(old(data).deep_view()),
        in_order(final(data).deep_view()),
        final(data).len() == old(data).len(),
        final(data).deep_view().to_multiset() == old(data).deep_view().to_multiset(),
        forall|at: DateTime|
            #[trigger] records_at(final(data).deep_view(), at) == records_at(
                old(data).deep_view(),
                at,
            ),
{
    let ghost all = data.deep_view();
    let mut done: usize = 0;
    while done < data.len()
        invariant
            done <= data.len(),
            data.len() == all.len(),
            data.deep_view().take(done as int) == sorted_by_time(all.take(done as int)),
            data.deep_view().skip(done as int) == all.skip(done as int),
        decreases data.len() - done,
    {
        let ghost now = data.deep_view();
        let ghost front = now.take(done as int);
        let ghost r = now[done as int];
        let mut at: usize = done;
        assert(front.take(at as int) =~= front);
        while at > 0 && data[done].timestamp.is_before(&data[at - 1].timestamp)
            invariant
                at <= done < data.len(),
                now == data.deep_view(),
                front == now.take(done as int),
                r == now[done as int],
                insertion_point(front, r) == insertion_point(front.take(at as int), r),
            decreases at,
        {
            proof {
                assert(front.take(at as int).last() == now[at - 1]);
                assert(front.take(at as int).drop_last() =~= front.take(at - 1));
            }
            at = at - 1;
        }
        proof {
            if at > 0 {
                assert(front.take(at as int).last() == now[at - 1]);
            }
            assert(front.take(done as int) =~= front);
            assert(insertion_point(front, r) == at);
            lemma_inserted(front, r);
            let upto = all.take(done + 1);
            assert(upto.drop_last() =~= all.take(done as int));
            assert(upto.last() == all.skip(done as int)[0]);
            assert(r == now.skip(done as int)[0]);
        }
        if at < done {
            let line = data.remove(done);
            data.insert(at, line);
        }
        proof {
            let next = data.deep_view();
            assert(next.take(done + 1) =~= front.insert(at as int, r));
            let old_rest = now.skip(done as int);
            let rest = next.skip(done + 1);
            assert(rest =~= all.skip(done + 1)) by {
                assert forall|i: int| 0 <= i < rest.len() implies #[trigger] rest[i] == all.skip(
                    done + 1,
                )[i] by {
                    assert(old_rest[i + 1] == all.skip(done as int)[i + 1]);
                }
            }
        }
        done = done + 1;
    }
    proof {
        assert(data.deep_view().take(done as int) =~= data.deep_view());
        assert(all.take(done as int) =~= all);
        lemma_sorted_in_order(all);
        lemma_sorted_same_records(all);
        assert forall|at: DateTime| #[trigger]
            records_at(data.deep_view(), at) == records_at(all, at) by {
            lemma_sorted_stable(all, at);
        }
    }
}

/// The days of `s`: its temporal normal form, cut into days.
pub open spec fn normalized_days(s: Seq<Record>) -> Seq<Seq<Record>> {
    day_groups(normalized(s))
}

/// Normalises the records: orders them by time, folds the records of one
/// minute into one, and cuts the result into days.
pub fn normalize(data: Vec<FsLibreLine>) -> (days: Vec<Vec<FsLibreLine>>)
    ensures
        days.deep_view() == normalized_days(data.deep_view()),
        joined(days.deep_view()) == normalized(data.deep_view()),
        strictly_in_order(joined(days.deep_view())),
        forall|g: int| 0 <= g < days.len() ==> (#[trigger] days[g]).len() > 0,
{
    let mut sorted = data;
    sort_by_timestamp(&mut sorted);
    let unified = unify_timestamps(&sorted);
    split_days(&unified)
}

} // verus!
