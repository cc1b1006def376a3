//! Which rows of an aligned diff are shown: those with a change and a few rows
//! around them, in as few runs as possible.

use std::collections::HashSet;
use vstd::prelude::*;

use crate::options::SEMANTIC_CONTEXT_LINES;

verus! {

/// A row of an aligned diff: the line on the left and the line on the right.
/// Either may be missing.
pub type AlignedLine = (Option<u32>, Option<u32>);

/// Whether a row has a changed line on either side.
pub open spec fn row_changed(row: AlignedLine, lhs_novel: Set<u32>, rhs_novel: Set<u32>) -> bool {
    ||| (row.0 matches Some(line) && lhs_novel.contains(line))
    ||| (row.1 matches Some(line) && rhs_novel.contains(line))
}

/// Whether a changed row lies within the rows of context around a row.
pub open spec fn row_shown(
    rows: Seq<AlignedLine>,
    lhs_novel: Set<u32>,
    rhs_novel: Set<u32>,
    row: int,
) -> bool {
    exists|changed: int|
        0 <= changed < rows.len() && row_changed(#[trigger] rows[changed], lhs_novel, rhs_novel)
            && changed - SEMANTIC_CONTEXT_LINES <= row <= changed + SEMANTIC_CONTEXT_LINES
}

/// The longest runs of rows that all satisfy a condition, among the first `count`
/// rows, from the first to the last. A run is its first row and the row after its
/// last.
pub open spec fn runs(shown: spec_fn(int) -> bool, count: nat) -> Seq<(int, int)>
    decreases count,
{
    if count == 0 {
        Seq::empty()
    } else {
        let row = count - 1;
        let before = runs(shown, (count - 1) as nat);
        if !shown(row) {
            before
        } else if before.len() > 0 && before.last().1 == row {
            before.update(before.len() - 1, (before.last().0, row + 1))
        } else {
            before.push((row, row + 1))
        }
    }
}

/// The runs of rows that are shown.
pub open spec fn chunk_runs(
    rows: Seq<AlignedLine>,
    lhs_novel: Set<u32>,
    rhs_novel: Set<u32>,
) -> Seq<(int, int)> {
    runs(|row: int| row_shown(rows, lhs_novel, rhs_novel, row), rows.len())
}

/// Ranges with their ends as mathematical integers.
pub open spec fn as_runs(ranges: Seq<(usize, usize)>) -> Seq<(int, int)> {
    ranges.map_values(|range: (usize, usize)| (range.0 as int, range.1 as int))
}

/// Whether some range of a list holds a row.
pub open spec fn covered(ranges: Seq<(int, int)>, row: int) -> bool {
    exists|k: int| 0 <= k < ranges.len() && (#[trigger] ranges[k]).0 <= row < ranges[k].1
}

/// Ranges that are not empty, stand in order with at least one row between each
/// two, and together hold the rows that satisfy a condition and no other.
pub open spec fn are_runs(
    ranges: Seq<(int, int)>,
    shown: spec_fn(int) -> bool,
    count: int,
) -> bool {
    &&& forall|k: int|
        0 <= k < ranges.len() ==> 0 <= (#[trigger] ranges[k]).0 < ranges[k].1 <= count
    &&& forall|k: int, l: int|
        0 <= k < l < ranges.len() ==> (#[trigger] ranges[k]).1 < (#[trigger] ranges[l]).0
    &&& forall|row: int| 0 <= row < count ==> (shown(row) <==> #[trigger] covered(ranges, row))
}

/// There is only one such list.
proof fn lemma_runs_unique(ranges: Seq<(int, int)>, shown: spec_fn(int) -> bool, count: nat)
    requires
        are_runs(ranges, shown, count as int),
    ensures
        ranges == runs(shown, count),
    decreases count,
{
    if count == 0 {
        if ranges.len() > 0 {
            assert(ranges[0].0 < ranges[0].1);
        }
        assert(ranges =~= runs(shown, count));
    } else {
        let row = count - 1;
        let shorter = (count - 1) as nat;
        if !shown(row) {
            assert(!covered(ranges, row));
            assert forall|k: int| 0 <= k < ranges.len() implies 0 <= (#[trigger] ranges[k]).0
                < ranges[k].1 <= shorter by {
                if ranges[k].1 == count {
                    assert(ranges[k].0 <= row < ranges[k].1);
                }
            }
            lemma_runs_unique(ranges, shown, shorter);
        } else {
            assert(covered(ranges, row));
            let k = choose|k: int|
                0 <= k < ranges.len() && (#[trigger] ranges[k]).0 <= row < ranges[k].1;
            if k < ranges.len() - 1 {
                assert(ranges[k].1 < ranges[ranges.len() - 1].0);
                assert(false);
            }
            let last = ranges.last();
            assert(last.1 == count);
            if last.0 == row {
                let rest = ranges.drop_last();
                assert forall|i: int| 0 <= i < rest.len() implies 0 <= (#[trigger] rest[i]).0
                    < rest[i].1 < shorter by {
                    assert(ranges[i].1 < ranges[ranges.len() - 1].0);
                }
                assert forall|i: int| 0 <= i < shorter implies (shown(i) <==> #[trigger] covered(
                    rest,
                    i,
                )) by {
                    assert(shown(i) <==> covered(ranges, i));
                    if covered(ranges, i) {
                        let m = choose|m: int|
                            0 <= m < ranges.len() && (#[trigger] ranges[m]).0 <= i < ranges[m].1;
                        assert(rest[m].0 <= i < rest[m].1);
                    }
                    if covered(rest, i) {
                        let m = choose|m: int|
                            0 <= m < rest.len() && (#[trigger] rest[m]).0 <= i < rest[m].1;
                        assert(ranges[m].0 <= i < ranges[m].1);
                    }
                }
                lemma_runs_unique(rest, shown, shorter);
                if rest.len() > 0 {
                    assert(rest[rest.len() - 1].1 < shorter);
                }
                assert(ranges =~= rest.push((row, row + 1)));
            } else {
                let shrunk = ranges.update(ranges.len() - 1, (last.0, row));
                assert forall|i: int| 0 <= i < shrunk.len() implies 0 <= (#[trigger] shrunk[i]).0
                    < shrunk[i].1 <= shorter by {
                    if i < ranges.len() - 1 {
                        assert(ranges[i].1 < ranges[ranges.len() - 1].0);
                    }
                }
                assert forall|i: int, j: int| 0 <= i < j < shrunk.len() implies (
                #[trigger] shrunk[i]).1 < (#[trigger] shrunk[j]).0 by {
                    assert(ranges[i].1 < ranges[j].0);
                }
                assert forall|i: int| 0 <= i < shorter implies (shown(i) <==> #[trigger] covered(
                    shrunk,
                    i,
                )) by {
                    assert(shown(i) <==> covered(ranges, i));
                    if covered(ranges, i) {
                        let m = choose|m: int|
                            0 <= m < ranges.len() && (#[trigger] ranges[m]).0 <= i < ranges[m].1;
                        assert(shrunk[m].0 <= i < shrunk[m].1);
                    }
                    if covered(shrunk, i) {
                        let m = choose|m: int|
                            0 <= m < shrunk.len() && (#[trigger] shrunk[m]).0 <= i < shrunk[m].1;
                        assert(ranges[m].0 <= i < ranges[m].1);
                    }
                }
                lemma_runs_unique(shrunk, shown, shorter);
                assert(ranges =~= shrunk.update(shrunk.len() - 1, (shrunk.last().0, row + 1)));
            }
        }
    }
}

/// The runs of a condition hold the rows that satisfy it and no other, in order,
/// with a gap between each two.
pub proof fn law_runs(shown: spec_fn(int) -> bool, count: nat)
    ensures
        are_runs(runs(shown, count), shown, count as int),
    decreases count,
{
    let out = runs(shown, count);
    if count > 0 {
        let row = count - 1;
        let before = runs(shown, (count - 1) as nat);
        law_runs(shown, (count - 1) as nat);
        if !shown(row) {
            assert(!covered(out, row));
        } else if before.len() > 0 && before.last().1 == row {
            assert(out.last() == (before.last().0, row + 1));
            assert forall|i: int| 0 <= i < count implies (shown(i) <==> #[trigger] covered(
                out,
                i,
            )) by {
                if i < row {
                    assert(shown(i) <==> covered(before, i));
                    if covered(before, i) {
                        let m = choose|m: int|
                            0 <= m < before.len() && (#[trigger] before[m]).0 <= i < before[m].1;
                        assert(out[m].0 <= i < out[m].1);
                    }
                    if covered(out, i) {
                        let m = choose|m: int|
                            0 <= m < out.len() && (#[trigger] out[m]).0 <= i < out[m].1;
                        assert(before[m].0 <= i < before[m].1);
                    }
                } else {
                    assert(before[before.len() - 1].0 < row);
                    assert(out[out.len() - 1].0 <= i < out[out.len() - 1].1);
                }
            }
        } else {
            assert forall|k: int, l: int| 0 <= k < l < out.len() implies (#[trigger] out[k]).1 < (
            #[trigger] out[l]).0 by {
                if l == before.len() {
                    if k < before.len() - 1 {
                        assert(before[k].1 < before[before.len() - 1].0);
                    }
                    assert(before[before.len() - 1].1 <= row);
                }
            }
            assert forall|i: int| 0 <= i < count implies (shown(i) <==> #[trigger] covered(
                out,
                i,
            )) by {
                if i < row {
                    assert(shown(i) <==> covered(before, i));
                    if covered(before, i) {
                        let m = choose|m: int|
                            0 <= m < before.len() && (#[trigger] before[m]).0 <= i < before[m].1;
                        assert(out[m].0 <= i < out[m].1);
                    }
                    if covered(out, i) {
                        let m = choose|m: int|
                            0 <= m < out.len() && (#[trigger] out[m]).0 <= i < out[m].1;
                        assert(before[m].0 <= i < before[m].1);
                    }
                } else {
                    assert(out[out.len() - 1].0 <= i < out[out.len() - 1].1);
                }
            }
        }
    } else {
        assert(out.len() == 0);
    }
}

fn is_row_changed(row: &AlignedLine, lhs_novel: &HashSet<u32>, rhs_novel: &HashSet<u32>) -> (r:
    bool)
    ensures
        r == row_changed(*row, lhs_novel@, rhs_novel@),
{
    broadcast use vstd::std_specs::hash::group_hash_axioms;

    let lhs = match row.0 {
        Some(line) => lhs_novel.contains(&line),
        None => false,
    };
    let rhs = match row.1 {
        Some(line) => rhs_novel.contains(&line),
        None => false,
    };
    lhs || rhs
}

/// Whether one of the first rows is changed and close to a row.
spec fn shown_so_far(
    rows: Seq<AlignedLine>,
    lhs_novel: Set<u32>,
    rhs_novel: Set<u32>,
    seen: int,
    row: int,
) -> bool {
    exists|changed: int|
        0 <= changed < seen && row_changed(#[trigger] rows[changed], lhs_novel, rhs_novel)
            && changed - SEMANTIC_CONTEXT_LINES <= row <= changed + SEMANTIC_CONTEXT_LINES
}

/// Finds the runs of rows to show: every changed row, with the rows of context
/// around it.
pub fn semantic_chunk_ranges(
    matched_lines: &[AlignedLine],
    lhs_lines_with_novel: &HashSet<u32>,
    rhs_lines_with_novel: &HashSet<u32>,
) -> (r: Vec<(usize, usize)>)
    ensures
        as_runs(r@) == chunk_runs(matched_lines@, lhs_lines_with_novel@, rhs_lines_with_novel@),
{
    let ghost rows = matched_lines@;
    let ghost lhs_novel = lhs_lines_with_novel@;
    let ghost rhs_novel = rhs_lines_with_novel@;
    let count: usize = matched_lines.len();
    let mut ranges: Vec<(usize, usize)> = Vec::new();
    let mut index: usize = 0;
    while index < count
        invariant
            index <= count,
            count == rows.len(),
            rows == matched_lines@,
            lhs_novel == lhs_lines_with_novel@,
            rhs_novel == rhs_lines_with_novel@,
            ranges@.len() > 0 ==> ranges@.last().0 == 0 || ranges@.last().0
                + SEMANTIC_CONTEXT_LINES <= index,
            are_runs(
                as_runs(ranges@),
                |row: int| shown_so_far(rows, lhs_novel, rhs_novel, index as int, row),
                count as int,
            ),
        decreases count - index,
    {
        let ghost before = as_runs(ranges@);
        let ghost earlier = |row: int|
            shown_so_far(rows, lhs_novel, rhs_novel, index as int, row);
        let ghost later = |row: int| shown_so_far(rows, lhs_novel, rhs_novel, index + 1, row);
        if is_row_changed(&matched_lines[index], lhs_lines_with_novel, rhs_lines_with_novel) {
            let start: usize = index.saturating_sub(SEMANTIC_CONTEXT_LINES);
            let unclipped: usize = index.saturating_add(SEMANTIC_CONTEXT_LINES).saturating_add(1);
            let end: usize = if unclipped < count {
                unclipped
            } else {
                count
            };
            proof {
                assert forall|row: int| 0 <= row < count implies (#[trigger] later(row) <==> (
                earlier(row) || start <= row < end)) by {
                    if start <= row < end {
                        assert(row_changed(rows[index as int], lhs_novel, rhs_novel));
                    }
                }
            }
            let last: usize = ranges.len();
            if last > 0 && start <= ranges[last - 1].1 {
                let (first, last_end) = ranges[last - 1];
                let merged: usize = if last_end < end {
                    end
                } else {
                    last_end
                };
                ranges.set(last - 1, (first, merged));
                proof {
                    let after = as_runs(ranges@);
                    lemma_merge(before, earlier, later, count as int, start as int, end as int);
                    assert(after =~= before.update(
                        before.len() - 1,
                        (before.last().0, merged as int),
                    ));
                }
            } else {
                ranges.push((start, end));
                proof {
                    let after = as_runs(ranges@);
                    lemma_append(before, earlier, later, count as int, start as int, end as int);
                    assert(after =~= before.push((start as int, end as int)));
                }
            }
        } else {
            proof {
                assert forall|row: int| 0 <= row < count implies (later(row) <==> #[trigger] covered(
                    before,
                    row,
                )) by {
                    assert(earlier(row) <==> covered(before, row));
                    assert(later(row) <==> earlier(row));
                }
            }
        }
        index = index + 1;
    }
    proof {
        let found = as_runs(ranges@);
        let all = |row: int| row_shown(rows, lhs_novel, rhs_novel, row);
        let so_far = |row: int| shown_so_far(rows, lhs_novel, rhs_novel, index as int, row);
        assert forall|row: int| 0 <= row < count implies (all(row) <==> #[trigger] covered(
            found,
            row,
        )) by {
            assert(so_far(row) <==> covered(found, row));
        }
        lemma_runs_unique(found, all, count as nat);
    }
    ranges
}

proof fn lemma_merge(
    ranges: Seq<(int, int)>,
    earlier: spec_fn(int) -> bool,
    later: spec_fn(int) -> bool,
    count: int,
    start: int,
    end: int,
)
    requires
        are_runs(ranges, earlier, count),
        ranges.len() > 0,
        ranges.last().0 <= start <= ranges.last().1,
        0 <= start < end <= count,
        forall|row: int|
            0 <= row < count ==> (#[trigger] later(row) <==> (earlier(row) || start <= row < end)),
    ensures
        are_runs(
            ranges.update(
                ranges.len() - 1,
                (
                    ranges.last().0,
                    if ranges.last().1 < end {
                        end
                    } else {
                        ranges.last().1
                    },
                ),
            ),
            later,
            count,
        ),
{
    let last = ranges.len() - 1;
    let out = ranges.update(
        last,
        (
            ranges[last].0,
            if ranges[last].1 < end {
                end
            } else {
                ranges[last].1
            },
        ),
    );
    assert forall|k: int| 0 <= k < out.len() implies 0 <= (#[trigger] out[k]).0 < out[k].1
        <= count by {
        assert(0 <= ranges[k].0 < ranges[k].1 <= count);
    }
    assert forall|k: int, l: int| 0 <= k < l < out.len() implies (#[trigger] out[k]).1 < (
    #[trigger] out[l]).0 by {
        assert(ranges[k].1 < ranges[l].0);
    }
    assert forall|row: int| 0 <= row < count implies (later(row) <==> #[trigger] covered(
        out,
        row,
    )) by {
        assert(later(row) <==> (earlier(row) || start <= row < end));
        assert(earlier(row) <==> covered(ranges, row));
        if covered(ranges, row) {
            let m = choose|m: int|
                0 <= m < ranges.len() && (#[trigger] ranges[m]).0 <= row < ranges[m].1;
            assert(out[m].0 <= row < out[m].1);
        }
        if start <= row < end {
            assert(out[last].0 <= row < out[last].1);
        }
        if covered(out, row) {
            let m = choose|m: int| 0 <= m < out.len() && (#[trigger] out[m]).0 <= row < out[m].1;
            if !(ranges[m].0 <= row < ranges[m].1) {
                assert(m == last);
                assert(start <= row < end);
            }
        }
    }
}

proof fn lemma_append(
    ranges: Seq<(int, int)>,
    earlier: spec_fn(int) -> bool,
    later: spec_fn(int) -> bool,
    count: int,
    start: int,
    end: int,
)
    requires
        are_runs(ranges, earlier, count),
        ranges.len() > 0 ==> ranges.last().1 < start,
        0 <= start < end <= count,
        forall|row: int|
            0 <= row < count ==> (#[trigger] later(row) <==> (earlier(row) || start <= row < end)),
    ensures
        are_runs(ranges.push((start, end)), later, count),
{
    let out = ranges.push((start, end));
    let added = ranges.len() as int;
    assert forall|k: int| 0 <= k < out.len() implies 0 <= (#[trigger] out[k]).0 < out[k].1
        <= count by {
        if k < added {
            assert(0 <= ranges[k].0 < ranges[k].1 <= count);
        }
    }
    assert forall|k: int, l: int| 0 <= k < l < out.len() implies (#[trigger] out[k]).1 < (
    #[trigger] out[l]).0 by {
        if l < added {
            assert(ranges[k].1 < ranges[l].0);
        } else if k < added - 1 {
            assert(ranges[k].1 < ranges[added - 1].0);
            assert(ranges[added - 1].0 < ranges[added - 1].1);
        }
    }
    assert forall|row: int| 0 <= row < count implies (later(row) <==> #[trigger] covered(
        out,
        row,
    )) by {
        assert(later(row) <==> (earlier(row) || start <= row < end));
        assert(earlier(row) <==> covered(ranges, row));
        if covered(ranges, row) {
            let m = choose|m: int|
                0 <= m < ranges.len() && (#[trigger] ranges[m]).0 <= row < ranges[m].1;
            assert(out[m].0 <= row < out[m].1);
        }
        if start <= row < end {
            assert(out[added].0 <= row < out[added].1);
        }
        if covered(out, row) {
            let m = choose|m: int| 0 <= m < out.len() && (#[trigger] out[m]).0 <= row < out[m].1;
            if m < added {
                assert(ranges[m].0 <= row < ranges[m].1);
            }
        }
    }
}

/// Every chunk has a changed row, every changed row is in a chunk together with
/// its rows of context, and no other row is shown. The chunks stand in order and
/// do not touch.
pub proof fn law_chunks(rows: Seq<AlignedLine>, lhs_novel: Set<u32>, rhs_novel: Set<u32>)
    ensures
        are_runs(
            chunk_runs(rows, lhs_novel, rhs_novel),
            |row: int| row_shown(rows, lhs_novel, rhs_novel, row),
            rows.len() as int,
        ),
        forall|changed: int, row: int|
            #![trigger rows[changed], covered(chunk_runs(rows, lhs_novel, rhs_novel), row)]
            0 <= changed < rows.len() && row_changed(rows[changed], lhs_novel, rhs_novel) && 0
                <= row < rows.len() && changed - SEMANTIC_CONTEXT_LINES <= row <= changed
                + SEMANTIC_CONTEXT_LINES ==> covered(
                chunk_runs(rows, lhs_novel, rhs_novel),
                row,
            ),
        forall|k: int|
            0 <= k < chunk_runs(rows, lhs_novel, rhs_novel).len() ==> has_change(
                rows,
                lhs_novel,
                rhs_novel,
                #[trigger] chunk_runs(rows, lhs_novel, rhs_novel)[k],
            ),
{
    let shown = |row: int| row_shown(rows, lhs_novel, rhs_novel, row);
    let found = chunk_runs(rows, lhs_novel, rhs_novel);
    let count = rows.len() as int;
    law_runs(shown, rows.len());
    assert forall|changed: int, row: int|
        #![trigger rows[changed], covered(found, row)]
        0 <= changed < rows.len() && row_changed(rows[changed], lhs_novel, rhs_novel) && 0 <= row
            < rows.len() && changed - SEMANTIC_CONTEXT_LINES <= row <= changed
            + SEMANTIC_CONTEXT_LINES implies covered(found, row) by {
        assert(shown(row));
    }
    assert forall|k: int| 0 <= k < found.len() implies has_change(
        rows,
        lhs_novel,
        rhs_novel,
        #[trigger] found[k],
    ) by {
        let first = found[k].0;
        assert(found[k].0 <= first < found[k].1);
        assert(covered(found, first));
        assert(shown(first));
        let changed = choose|changed: int|
            0 <= changed < rows.len() && row_changed(#[trigger] rows[changed], lhs_novel, rhs_novel)
                && changed - SEMANTIC_CONTEXT_LINES <= first <= changed + SEMANTIC_CONTEXT_LINES;
        lemma_same_run(found, shown, count, k, first, changed);
    }
}

/// Whether some row of a run is changed.
pub open spec fn has_change(
    rows: Seq<AlignedLine>,
    lhs_novel: Set<u32>,
    rhs_novel: Set<u32>,
    run: (int, int),
) -> bool {
    exists|row: int| run.0 <= row < run.1 && row_changed(#[trigger] rows[row], lhs_novel, rhs_novel)
}

/// A row that is joined by shown rows to the first row of a run is in the run.
proof fn lemma_same_run(
    ranges: Seq<(int, int)>,
    shown: spec_fn(int) -> bool,
    count: int,
    k: int,
    first: int,
    row: int,
)
    requires
        are_runs(ranges, shown, count),
        0 <= k < ranges.len(),
        ranges[k].0 == first,
        0 <= row < count,
        forall|between: int|
            #![trigger shown(between)]
            (first <= between <= row || row <= between <= first) ==> shown(between),
    ensures
        ranges[k].0 <= row < ranges[k].1,
{
    if row < first {
        assert(shown(first - 1));
        assert(covered(ranges, first - 1));
        let m = choose|m: int|
            0 <= m < ranges.len() && (#[trigger] ranges[m]).0 <= first - 1 < ranges[m].1;
        if m < k {
            assert(ranges[m].1 < ranges[k].0);
        } else if m > k {
            assert(ranges[k].1 < ranges[m].0);
        }
    } else if row >= ranges[k].1 {
        let after = ranges[k].1;
        assert(shown(after));
        assert(covered(ranges, after));
        let m = choose|m: int|
            0 <= m < ranges.len() && (#[trigger] ranges[m]).0 <= after < ranges[m].1;
        if m < k {
            assert(ranges[m].1 < ranges[k].0);
        } else if m > k {
            assert(ranges[k].1 < ranges[m].0);
        }
    }
}

/// Rows with their sides exchanged.
pub open spec fn swapped(rows: Seq<AlignedLine>) -> Seq<AlignedLine> {
    rows.map_values(|row: AlignedLine| (row.1, row.0))
}

/// A row is shown where it is shown with the two sides exchanged.
pub proof fn law_shown_symmetric(
    rows: Seq<AlignedLine>,
    lhs_novel: Set<u32>,
    rhs_novel: Set<u32>,
)
    ensures
        forall|row: int| #[trigger]
            row_shown(swapped(rows), rhs_novel, lhs_novel, row) == row_shown(
                rows,
                lhs_novel,
                rhs_novel,
                row,
            ),
{
    assert forall|row: int| #[trigger]
        row_shown(swapped(rows), rhs_novel, lhs_novel, row) == row_shown(
            rows,
            lhs_novel,
            rhs_novel,
            row,
        ) by {
        if row_shown(rows, lhs_novel, rhs_novel, row) {
            let changed = choose|changed: int|
                0 <= changed < rows.len() && row_changed(
                    #[trigger] rows[changed],
                    lhs_novel,
                    rhs_novel,
                ) && changed - SEMANTIC_CONTEXT_LINES <= row <= changed + SEMANTIC_CONTEXT_LINES;
            assert(row_changed(swapped(rows)[changed], rhs_novel, lhs_novel));
        }
        if row_shown(swapped(rows), rhs_novel, lhs_novel, row) {
            let changed = choose|changed: int|
                0 <= changed < swapped(rows).len() && row_changed(
                    #[trigger] swapped(rows)[changed],
                    rhs_novel,
                    lhs_novel,
                ) && changed - SEMANTIC_CONTEXT_LINES <= row <= changed + SEMANTIC_CONTEXT_LINES;
            assert(row_changed(rows[changed], lhs_novel, rhs_novel));
        }
    }
}

/// Exchanging the two sides shows the same runs of rows.
pub proof fn law_chunks_symmetric(
    rows: Seq<AlignedLine>,
    lhs_novel: Set<u32>,
    rhs_novel: Set<u32>,
)
    ensures
        chunk_runs(swapped(rows), rhs_novel, lhs_novel) == chunk_runs(rows, lhs_novel, rhs_novel),
{
    law_shown_symmetric(rows, lhs_novel, rhs_novel);
    assert((|row: int| row_shown(swapped(rows), rhs_novel, lhs_novel, row)) =~= (|row: int|
        row_shown(rows, lhs_novel, rhs_novel, row)));
}

/// Which rows are shown, told by the rows and the changed lines themselves: a row
/// is in a run exactly where some row at most three rows away has a changed line,
/// on the left or on the right.
pub proof fn law_rows_near_changes_shown(
    rows: Seq<AlignedLine>,
    lhs_novel: Set<u32>,
    rhs_novel: Set<u32>,
    row: int,
)
    requires
        0 <= row < rows.len(),
    ensures
        (exists|k: int|
            0 <= k < chunk_runs(rows, lhs_novel, rhs_novel).len() && (#[trigger] chunk_runs(
                rows,
                lhs_novel,
                rhs_novel,
            )[k]).0 <= row < chunk_runs(rows, lhs_novel, rhs_novel)[k].1) <==> (exists|changed: int|
            0 <= changed < rows.len() && -3 <= row - changed <= 3 && ({
                ||| ((#[trigger] rows[changed]).0 matches Some(line) && lhs_novel.contains(line))
                ||| (rows[changed].1 matches Some(line) && rhs_novel.contains(line))
            })),
{
    let found = chunk_runs(rows, lhs_novel, rhs_novel);
    let shown = |row: int| row_shown(rows, lhs_novel, rhs_novel, row);
    law_runs(shown, rows.len());
    assert(shown(row) <==> covered(found, row));
    if shown(row) {
        let changed = choose|changed: int|
            0 <= changed < rows.len() && row_changed(#[trigger] rows[changed], lhs_novel, rhs_novel)
                && changed - SEMANTIC_CONTEXT_LINES <= row <= changed + SEMANTIC_CONTEXT_LINES;
        assert(row_changed(rows[changed], lhs_novel, rhs_novel));
    }
    if exists|changed: int|
        0 <= changed < rows.len() && -3 <= row - changed <= 3 && ({
            ||| ((#[trigger] rows[changed]).0 matches Some(line) && lhs_novel.contains(line))
            ||| (rows[changed].1 matches Some(line) && rhs_novel.contains(line))
        }) {
        let changed = choose|changed: int|
            0 <= changed < rows.len() && -3 <= row - changed <= 3 && ({
                ||| ((#[trigger] rows[changed]).0 matches Some(line) && lhs_novel.contains(line))
                ||| (rows[changed].1 matches Some(line) && rhs_novel.contains(line))
            });
        assert(row_changed(rows[changed], lhs_novel, rhs_novel));
        assert(shown(row));
    }
}

/// Runs are not empty, lie within the rows, and stand in order with at least one
/// row between each two.
pub proof fn law_runs_apart(rows: Seq<AlignedLine>, lhs_novel: Set<u32>, rhs_novel: Set<u32>)
    ensures
        ({
            let found = chunk_runs(rows, lhs_novel, rhs_novel);
            &&& forall|k: int|
                0 <= k < found.len() ==> 0 <= (#[trigger] found[k]).0 < found[k].1 <= rows.len()
            &&& forall|k: int, l: int|
                0 <= k < l < found.len() ==> (#[trigger] found[k]).1 < (#[trigger] found[l]).0
        }),
{
    law_runs(|row: int| row_shown(rows, lhs_novel, rhs_novel, row), rows.len());
}

/// Ranges keep their ends and their order.
pub proof fn law_range_ends(ranges: Seq<(usize, usize)>)
    ensures
        as_runs(ranges).len() == ranges.len(),
        forall|k: int|
            0 <= k < ranges.len() ==> (#[trigger] as_runs(ranges)[k]).0 == ranges[k].0 && as_runs(
                ranges,
            )[k].1 == ranges[k].1,
{
}

} // verus!
