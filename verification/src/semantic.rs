//! The result of a semantic diff: the rows that changed, with the spans to mark
//! on each side.

use std::collections::{HashMap, HashSet};
use vstd::prelude::*;

use crate::chunks::{semantic_chunk_ranges, AlignedLine};
use crate::format::{line_fallback_reason, FileFormat, FileFormatModel};
use crate::matched::{semantic_changes_by_line, ChangeSpan, MatchedPos};

verus! {

/// A row that is shown.
#[derive(Debug, Clone, PartialEq, Eq)]
pub struct SemanticLine {
    pub lhs_line: Option<u32>,
    pub rhs_line: Option<u32>,
    pub lhs_changes: Vec<ChangeSpan>,
    pub rhs_changes: Vec<ChangeSpan>,
}

/// A run of rows that are shown together.
#[derive(Debug, Clone, PartialEq, Eq)]
pub struct SemanticChunk {
    pub lines: Vec<SemanticLine>,
}

/// What became of a file.
#[derive(Debug, Clone, Copy, PartialEq, Eq, Structural)]
pub enum DiffStatus {
    Unchanged,
    Changed,
    Created,
    Deleted,
    Binary,
}

/// The result of a semantic diff.
#[derive(Debug, Clone, PartialEq, Eq)]
pub struct SemanticDiffResult {
    pub status: DiffStatus,
    pub language: String,
    pub line_fallback_reason: Option<String>,
    pub chunks: Vec<SemanticChunk>,
    pub aligned_lines: Vec<(Option<u32>, Option<u32>)>,
}

/// A [`SemanticLine`] with its lists as sequences.
pub struct SemanticLineModel {
    pub lhs_line: Option<u32>,
    pub rhs_line: Option<u32>,
    pub lhs_changes: Seq<ChangeSpan>,
    pub rhs_changes: Seq<ChangeSpan>,
}

/// A [`SemanticDiffResult`] with its texts and lists as sequences.
pub struct SemanticDiffModel {
    pub status: DiffStatus,
    pub language: Seq<char>,
    pub line_fallback_reason: Option<Seq<char>>,
    pub chunks: Seq<Seq<SemanticLineModel>>,
    pub aligned_lines: Seq<AlignedLine>,
}

impl View for SemanticLine {
    type V = SemanticLineModel;

    open spec fn view(&self) -> SemanticLineModel {
        SemanticLineModel {
            lhs_line: self.lhs_line,
            rhs_line: self.rhs_line,
            lhs_changes: self.lhs_changes@,
            rhs_changes: self.rhs_changes@,
        }
    }
}

impl View for SemanticChunk {
    type V = Seq<SemanticLineModel>;

    open spec fn view(&self) -> Seq<SemanticLineModel> {
        self.lines@.map_values(|line: SemanticLine| line@)
    }
}

impl View for SemanticDiffResult {
    type V = SemanticDiffModel;

    open spec fn view(&self) -> SemanticDiffModel {
        SemanticDiffModel {
            status: self.status,
            language: self.language@,
            line_fallback_reason: crate::format::optional_text(self.line_fallback_reason),
            chunks: self.chunks@.map_values(|chunk: SemanticChunk| chunk@),
            aligned_lines: self.aligned_lines@,
        }
    }
}

/// Whether a line already stands in a row above that is shown.
pub open spec fn shown_above(
    lines: Seq<Option<u32>>,
    shown: spec_fn(int) -> bool,
    row: int,
    line: u32,
) -> bool {
    exists|above: int|
        0 <= above < row && shown(above) && #[trigger] lines[above] == Some(line)
}

/// The spans that are marked on one side of a row: those of its line, in the
/// first row that shows the line, and none in any later one.
pub open spec fn row_changes(
    spans: spec_fn(u32) -> Seq<ChangeSpan>,
    lines: Seq<Option<u32>>,
    shown: spec_fn(int) -> bool,
    row: int,
) -> Seq<ChangeSpan> {
    match lines[row] {
        Some(line) => if shown_above(lines, shown, row, line) {
            Seq::empty()
        } else {
            spans(line)
        },
        None => Seq::empty(),
    }
}

/// The lines on the left of aligned rows.
pub open spec fn lhs_column(rows: Seq<AlignedLine>) -> Seq<Option<u32>> {
    rows.map_values(|row: AlignedLine| row.0)
}

/// The lines on the right of aligned rows.
pub open spec fn rhs_column(rows: Seq<AlignedLine>) -> Seq<Option<u32>> {
    rows.map_values(|row: AlignedLine| row.1)
}

/// A row as it is shown.
pub open spec fn shown_row(
    rows: Seq<AlignedLine>,
    lhs_spans: spec_fn(u32) -> Seq<ChangeSpan>,
    rhs_spans: spec_fn(u32) -> Seq<ChangeSpan>,
    shown: spec_fn(int) -> bool,
    row: int,
) -> SemanticLineModel {
    SemanticLineModel {
        lhs_line: rows[row].0,
        rhs_line: rows[row].1,
        lhs_changes: row_changes(lhs_spans, lhs_column(rows), shown, row),
        rhs_changes: row_changes(rhs_spans, rhs_column(rows), shown, row),
    }
}

/// The rows of a run, as they are shown.
pub open spec fn shown_run(
    rows: Seq<AlignedLine>,
    lhs_spans: spec_fn(u32) -> Seq<ChangeSpan>,
    rhs_spans: spec_fn(u32) -> Seq<ChangeSpan>,
    shown: spec_fn(int) -> bool,
    run: (int, int),
) -> Seq<SemanticLineModel> {
    Seq::new(
        (run.1 - run.0) as nat,
        |k: int| shown_row(rows, lhs_spans, rhs_spans, shown, run.0 + k),
    )
}

/// All runs of rows that are shown.
pub open spec fn shown_chunks(
    rows: Seq<AlignedLine>,
    lhs_spans: spec_fn(u32) -> Seq<ChangeSpan>,
    rhs_spans: spec_fn(u32) -> Seq<ChangeSpan>,
    shown: spec_fn(int) -> bool,
) -> Seq<Seq<SemanticLineModel>> {
    crate::chunks::runs(shown, rows.len()).map_values(
        |run: (int, int)| shown_run(rows, lhs_spans, rhs_spans, shown, run),
    )
}

/// What the positions found on both sides and their alignment come to: changed,
/// with the rows around every change, where some row has a change, and else
/// unchanged.
pub open spec fn semantic_result<D>(
    file_format: FileFormatModel,
    format_name: Seq<char>,
    lhs_positions: Seq<MatchedPos<D>>,
    rhs_positions: Seq<MatchedPos<D>>,
    lhs_novel: Set<u32>,
    rhs_novel: Set<u32>,
    rows: Seq<AlignedLine>,
) -> SemanticDiffModel {
    let chunks = shown_chunks(
        rows,
        |line: u32| crate::matched::line_spans(lhs_positions, line),
        |line: u32| crate::matched::line_spans(rhs_positions, line),
        |row: int| crate::chunks::row_shown(rows, lhs_novel, rhs_novel, row),
    );
    SemanticDiffModel {
        status: if chunks.len() == 0 {
            DiffStatus::Unchanged
        } else {
            DiffStatus::Changed
        },
        language: format_name,
        line_fallback_reason: file_format.fallback_reason(),
        chunks,
        aligned_lines: if chunks.len() == 0 {
            Seq::empty()
        } else {
            rows
        },
    }
}

/// The spans that a map holds for a line.
spec fn spans_in(changes: Map<u32, Vec<ChangeSpan>>, line: u32) -> Seq<ChangeSpan> {
    if changes.contains_key(line) {
        changes[line]@
    } else {
        Seq::empty()
    }
}

/// A map from which the spans of the lines shown above a row have been taken.
spec fn rest_of(
    rest: Map<u32, Vec<ChangeSpan>>,
    all: Map<u32, Vec<ChangeSpan>>,
    lines: Seq<Option<u32>>,
    shown: spec_fn(int) -> bool,
    row: int,
) -> bool {
    forall|line: u32|
        #![trigger spans_in(rest, line)]
        spans_in(rest, line) == (if shown_above(lines, shown, row, line) {
            Seq::<ChangeSpan>::empty()
        } else {
            spans_in(all, line)
        })
}

/// Takes the spans of a line out of a map.
fn take_changes(changes: &mut HashMap<u32, Vec<ChangeSpan>>, line: Option<u32>) -> (r: Vec<
    ChangeSpan,
>)
    ensures
        match line {
            Some(line) => r@ == spans_in(old(changes)@, line) && final(changes)@ == old(
                changes,
            )@.remove(line),
            None => r@.len() == 0 && final(changes)@ == old(changes)@,
        },
{
    broadcast use vstd::std_specs::hash::group_hash_axioms;

    match line {
        Some(line) => match changes.remove(&line) {
            Some(spans) => spans,
            None => {
                let none: Vec<ChangeSpan> = Vec::new();
                proof {
                    assert(none@ =~= spans_in(old(changes)@, line));
                    assert(changes@ =~= old(changes)@.remove(line));
                }
                none
            },
        },
        None => Vec::new(),
    }
}

proof fn lemma_take(
    before: Map<u32, Vec<ChangeSpan>>,
    after: Map<u32, Vec<ChangeSpan>>,
    all: Map<u32, Vec<ChangeSpan>>,
    lines: Seq<Option<u32>>,
    shown: spec_fn(int) -> bool,
    row: int,
)
    requires
        rest_of(before, all, lines, shown, row),
        0 <= row < lines.len(),
        shown(row),
        match lines[row] {
            Some(line) => after == before.remove(line),
            None => after == before,
        },
    ensures
        rest_of(after, all, lines, shown, row + 1),
        match lines[row] {
            Some(line) => spans_in(before, line) == row_changes(
                |line: u32| spans_in(all, line),
                lines,
                shown,
                row,
            ),
            None => true,
        },
{
    assert forall|line: u32| #[trigger] spans_in(after, line) == (if shown_above(
        lines,
        shown,
        row + 1,
        line,
    ) {
        Seq::<ChangeSpan>::empty()
    } else {
        spans_in(all, line)
    }) by {
        assert(spans_in(before, line) == (if shown_above(lines, shown, row, line) {
            Seq::<ChangeSpan>::empty()
        } else {
            spans_in(all, line)
        }));
        if lines[row] == Some(line) {
            assert(shown_above(lines, shown, row + 1, line));
        } else {
            assert(spans_in(after, line) == spans_in(before, line));
            if shown_above(lines, shown, row + 1, line) {
                let above = choose|above: int|
                    0 <= above < row + 1 && shown(above) && #[trigger] lines[above] == Some(line);
                assert(above < row);
                assert(shown_above(lines, shown, row, line));
            }
            if shown_above(lines, shown, row, line) {
                let above = choose|above: int|
                    0 <= above < row && shown(above) && #[trigger] lines[above] == Some(line);
                assert(lines[above] == Some(line));
            }
        }
    }
}

proof fn lemma_skip(
    rest: Map<u32, Vec<ChangeSpan>>,
    all: Map<u32, Vec<ChangeSpan>>,
    lines: Seq<Option<u32>>,
    shown: spec_fn(int) -> bool,
    from: int,
    to: int,
)
    requires
        rest_of(rest, all, lines, shown, from),
        from <= to,
        forall|row: int| from <= row < to ==> !#[trigger] shown(row),
    ensures
        rest_of(rest, all, lines, shown, to),
{
    assert forall|line: u32| #[trigger] spans_in(rest, line) == (if shown_above(
        lines,
        shown,
        to,
        line,
    ) {
        Seq::<ChangeSpan>::empty()
    } else {
        spans_in(all, line)
    }) by {
        if shown_above(lines, shown, to, line) {
            let above = choose|above: int|
                0 <= above < to && shown(above) && #[trigger] lines[above] == Some(line);
            assert(above < from);
            assert(shown_above(lines, shown, from, line));
        }
        if shown_above(lines, shown, from, line) {
            let above = choose|above: int|
                0 <= above < from && shown(above) && #[trigger] lines[above] == Some(line);
            assert(lines[above] == Some(line));
        }
    }
}

/// Builds the rows of each range, and marks each changed line where it first
/// shows.
fn build_chunks(
    matched_lines: &[AlignedLine],
    ranges: &Vec<(usize, usize)>,
    lhs_changes: HashMap<u32, Vec<ChangeSpan>>,
    rhs_changes: HashMap<u32, Vec<ChangeSpan>>,
    Ghost(shown): Ghost<spec_fn(int) -> bool>,
) -> (r: Vec<SemanticChunk>)
    requires
        crate::chunks::are_runs(
            crate::chunks::as_runs(ranges@),
            shown,
            matched_lines@.len() as int,
        ),
        crate::chunks::as_runs(ranges@) == crate::chunks::runs(shown, matched_lines@.len()),
    ensures
        r@.map_values(|chunk: SemanticChunk| chunk@) == shown_chunks(
            matched_lines@,
            |line: u32| spans_in(lhs_changes@, line),
            |line: u32| spans_in(rhs_changes@, line),
            shown,
        ),
{
    let ghost rows = matched_lines@;
    let ghost lhs_all = lhs_changes@;
    let ghost rhs_all = rhs_changes@;
    let ghost lhs_spans = |line: u32| spans_in(lhs_all, line);
    let ghost rhs_spans = |line: u32| spans_in(rhs_all, line);
    let ghost expected = crate::chunks::as_runs(ranges@);
    let mut lhs_rest = lhs_changes;
    let mut rhs_rest = rhs_changes;
    let mut chunks: Vec<SemanticChunk> = Vec::new();
    let ghost mut reached: int = 0;
    let mut next: usize = 0;
    while next < ranges.len()
        invariant
            next <= ranges@.len(),
            rows == matched_lines@,
            expected == crate::chunks::as_runs(ranges@),
            crate::chunks::are_runs(expected, shown, rows.len() as int),
            lhs_spans == (|line: u32| spans_in(lhs_all, line)),
            rhs_spans == (|line: u32| spans_in(rhs_all, line)),
            reached == (if next == 0 {
                0
            } else {
                expected[next - 1].1
            }),
            rest_of(lhs_rest@, lhs_all, lhs_column(rows), shown, reached),
            rest_of(rhs_rest@, rhs_all, rhs_column(rows), shown, reached),
            chunks@.len() == next,
            forall|k: int|
                0 <= k < next ==> (#[trigger] chunks@[k])@ == shown_run(
                    rows,
                    lhs_spans,
                    rhs_spans,
                    shown,
                    expected[k],
                ),
        decreases ranges@.len() - next,
    {
        let (start, end) = ranges[next];
        proof {
            assert(expected[next as int] == (start as int, end as int));
            assert forall|row: int| reached <= row < start implies !#[trigger] shown(row) by {
                if shown(row) {
                    assert(crate::chunks::covered(expected, row));
                    let m = choose|m: int|
                        0 <= m < expected.len() && (#[trigger] expected[m]).0 <= row
                            < expected[m].1;
                    if m < next - 1 {
                        assert(expected[m].1 < expected[next - 1].0);
                    } else if m > next {
                        assert(expected[next as int].1 < expected[m].0);
                    }
                }
            }
            if next > 0 {
                assert(expected[next - 1].1 < expected[next as int].0);
            }
            lemma_skip(lhs_rest@, lhs_all, lhs_column(rows), shown, reached, start as int);
            lemma_skip(rhs_rest@, rhs_all, rhs_column(rows), shown, reached, start as int);
        }
        let mut lines: Vec<SemanticLine> = Vec::new();
        let mut row: usize = start;
        while row < end
            invariant
                start <= row <= end,
                end <= rows.len(),
                next < ranges@.len(),
                rows == matched_lines@,
                expected == crate::chunks::as_runs(ranges@),
                crate::chunks::are_runs(expected, shown, rows.len() as int),
                expected[next as int] == (start as int, end as int),
                lhs_spans == (|line: u32| spans_in(lhs_all, line)),
                rhs_spans == (|line: u32| spans_in(rhs_all, line)),
                rest_of(lhs_rest@, lhs_all, lhs_column(rows), shown, row as int),
                rest_of(rhs_rest@, rhs_all, rhs_column(rows), shown, row as int),
                lines@.len() == row - start,
                forall|k: int|
                    0 <= k < row - start ==> (#[trigger] lines@[k])@ == shown_row(
                        rows,
                        lhs_spans,
                        rhs_spans,
                        shown,
                        start + k,
                    ),
            decreases end - row,
        {
            let (lhs_line, rhs_line) = matched_lines[row];
            let ghost lhs_before = lhs_rest@;
            let ghost rhs_before = rhs_rest@;
            let lhs = take_changes(&mut lhs_rest, lhs_line);
            let rhs = take_changes(&mut rhs_rest, rhs_line);
            proof {
                assert(expected[next as int].0 <= row < expected[next as int].1);
                assert(crate::chunks::covered(expected, row as int));
                assert(shown(row as int));
                lemma_take(
                    lhs_before,
                    lhs_rest@,
                    lhs_all,
                    lhs_column(rows),
                    shown,
                    row as int,
                );
                lemma_take(
                    rhs_before,
                    rhs_rest@,
                    rhs_all,
                    rhs_column(rows),
                    shown,
                    row as int,
                );
                assert(lhs@ =~= row_changes(lhs_spans, lhs_column(rows), shown, row as int));
                assert(rhs@ =~= row_changes(rhs_spans, rhs_column(rows), shown, row as int));
            }
            lines.push(SemanticLine { lhs_line, rhs_line, lhs_changes: lhs, rhs_changes: rhs });
            row = row + 1;
        }
        let chunk = SemanticChunk { lines };
        proof {
            assert(chunk@ =~= shown_run(rows, lhs_spans, rhs_spans, shown, expected[next as int]));
            reached = end as int;
        }
        chunks.push(chunk);
        next = next + 1;
    }
    proof {
        assert(chunks@.map_values(|chunk: SemanticChunk| chunk@) =~= shown_chunks(
            rows,
            lhs_spans,
            rhs_spans,
            shown,
        ));
    }
    chunks
}

/// Where nothing satisfies a condition, it has no runs.
proof fn lemma_no_runs(shown: spec_fn(int) -> bool, count: nat)
    requires
        forall|row: int| 0 <= row < count ==> !#[trigger] shown(row),
    ensures
        crate::chunks::runs(shown, count).len() == 0,
    decreases count,
{
    if count > 0 {
        lemma_no_runs(shown, (count - 1) as nat);
    }
}

/// Turns the positions found on both sides, and the rows in which their lines
/// are aligned, into the result that is shown.
pub fn text_positions_to_semantic<D>(
    file_format: &FileFormat,
    format_name: String,
    lhs_positions: &[MatchedPos<D>],
    rhs_positions: &[MatchedPos<D>],
    lhs_lines_with_novel: &HashSet<u32>,
    rhs_lines_with_novel: &HashSet<u32>,
    matched_lines: Vec<AlignedLine>,
) -> (r: SemanticDiffResult)
    ensures
        r@ == semantic_result(
            file_format@,
            format_name@,
            lhs_positions@,
            rhs_positions@,
            lhs_lines_with_novel@,
            rhs_lines_with_novel@,
            matched_lines@,
        ),
{
    let ghost rows = matched_lines@;
    let ghost shown = |row: int|
        crate::chunks::row_shown(rows, lhs_lines_with_novel@, rhs_lines_with_novel@, row);
    let ghost expected = semantic_result(
        file_format@,
        format_name@,
        lhs_positions@,
        rhs_positions@,
        lhs_lines_with_novel@,
        rhs_lines_with_novel@,
        rows,
    );
    if lhs_lines_with_novel.is_empty() && rhs_lines_with_novel.is_empty() {
        let result = SemanticDiffResult {
            status: DiffStatus::Unchanged,
            language: format_name,
            line_fallback_reason: line_fallback_reason(file_format),
            chunks: Vec::new(),
            aligned_lines: Vec::new(),
        };
        proof {
            assert forall|row: int| 0 <= row < rows.len() implies !#[trigger] shown(row) by {
            }
            lemma_no_runs(shown, rows.len());
            assert(result@.chunks =~= expected.chunks);
            assert(result@.aligned_lines =~= expected.aligned_lines);
        }
        return result;
    }
    let lhs_changes_by_line = semantic_changes_by_line(lhs_positions);
    let rhs_changes_by_line = semantic_changes_by_line(rhs_positions);
    let ranges = semantic_chunk_ranges(
        matched_lines.as_slice(),
        lhs_lines_with_novel,
        rhs_lines_with_novel,
    );
    proof {
        crate::chunks::law_runs(shown, rows.len());
    }
    let ghost lhs_all = lhs_changes_by_line@;
    let ghost rhs_all = rhs_changes_by_line@;
    let chunks = build_chunks(
        matched_lines.as_slice(),
        &ranges,
        lhs_changes_by_line,
        rhs_changes_by_line,
        Ghost(shown),
    );
    proof {
        let lhs_spans = |line: u32| crate::matched::line_spans(lhs_positions@, line);
        let rhs_spans = |line: u32| crate::matched::line_spans(rhs_positions@, line);
        assert forall|line: u32| #[trigger] spans_in(lhs_all, line) == lhs_spans(line) by {
            assert(spans_in(lhs_all, line) =~= lhs_spans(line));
        }
        assert forall|line: u32| #[trigger] spans_in(rhs_all, line) == rhs_spans(line) by {
            assert(spans_in(rhs_all, line) =~= rhs_spans(line));
        }
        assert((|line: u32| spans_in(lhs_all, line)) =~= lhs_spans);
        assert((|line: u32| spans_in(rhs_all, line)) =~= rhs_spans);
    }
    if chunks.is_empty() {
        let result = SemanticDiffResult {
            status: DiffStatus::Unchanged,
            language: format_name,
            line_fallback_reason: line_fallback_reason(file_format),
            chunks,
            aligned_lines: Vec::new(),
        };
        proof {
            assert(result@.aligned_lines =~= expected.aligned_lines);
        }
        result
    } else {
        SemanticDiffResult {
            status: DiffStatus::Changed,
            language: format_name,
            line_fallback_reason: line_fallback_reason(file_format),
            chunks,
            aligned_lines: matched_lines,
        }
    }
}

/// Where no line has a change, the file is unchanged.
pub proof fn law_unchanged_without_novel<D>(
    file_format: FileFormatModel,
    format_name: Seq<char>,
    lhs_positions: Seq<MatchedPos<D>>,
    rhs_positions: Seq<MatchedPos<D>>,
    lhs_novel: Set<u32>,
    rhs_novel: Set<u32>,
    rows: Seq<AlignedLine>,
)
    requires
        lhs_novel.is_empty(),
        rhs_novel.is_empty(),
    ensures
        semantic_result(
            file_format,
            format_name,
            lhs_positions,
            rhs_positions,
            lhs_novel,
            rhs_novel,
            rows,
        ) == (SemanticDiffModel {
            status: DiffStatus::Unchanged,
            language: format_name,
            line_fallback_reason: file_format.fallback_reason(),
            chunks: Seq::empty(),
            aligned_lines: Seq::empty(),
        }),
{
    let shown = |row: int| crate::chunks::row_shown(rows, lhs_novel, rhs_novel, row);
    assert forall|row: int| 0 <= row < rows.len() implies !#[trigger] shown(row) by {}
    lemma_no_runs(shown, rows.len());
    let result = semantic_result(
        file_format,
        format_name,
        lhs_positions,
        rhs_positions,
        lhs_novel,
        rhs_novel,
        rows,
    );
    assert(result.chunks =~= Seq::empty());
}

/// A file is changed where some row has a change and only there, and then every
/// row comes with the result.
pub proof fn law_changed_has_rows<D>(
    file_format: FileFormatModel,
    format_name: Seq<char>,
    lhs_positions: Seq<MatchedPos<D>>,
    rhs_positions: Seq<MatchedPos<D>>,
    lhs_novel: Set<u32>,
    rhs_novel: Set<u32>,
    rows: Seq<AlignedLine>,
)
    ensures
        ({
            let result = semantic_result(
                file_format,
                format_name,
                lhs_positions,
                rhs_positions,
                lhs_novel,
                rhs_novel,
                rows,
            );
            &&& result.status == DiffStatus::Changed <==> exists|row: int|
                0 <= row < rows.len() && crate::chunks::row_changed(
                    #[trigger] rows[row],
                    lhs_novel,
                    rhs_novel,
                )
            &&& result.status == DiffStatus::Changed || result.status == DiffStatus::Unchanged
            &&& result.status == DiffStatus::Changed <==> result.chunks.len() > 0
            &&& result.status == DiffStatus::Changed <==> result.aligned_lines.len() > 0
            &&& result.status == DiffStatus::Changed ==> result.aligned_lines == rows
        }),
{
    let shown = |row: int| crate::chunks::row_shown(rows, lhs_novel, rhs_novel, row);
    let found = crate::chunks::runs(shown, rows.len());
    crate::chunks::law_runs(shown, rows.len());
    if found.len() > 0 {
        let row = found[0].0;
        assert(found[0].0 <= row < found[0].1);
        assert(crate::chunks::covered(found, row));
        assert(shown(row));
    }
    if exists|row: int|
        0 <= row < rows.len() && crate::chunks::row_changed(
            #[trigger] rows[row],
            lhs_novel,
            rhs_novel,
        ) {
        let row = choose|row: int|
            0 <= row < rows.len() && crate::chunks::row_changed(
                #[trigger] rows[row],
                lhs_novel,
                rhs_novel,
            );
        assert(shown(row));
        assert(crate::chunks::covered(found, row));
    }
}

/// The changes of a line are marked in the first shown row that has the line, and
/// in no other: whichever shown row is taken, one of the rows up to it carries
/// all changes of its line, and every later row with the line carries none.
pub proof fn law_marked_once(
    spans: spec_fn(u32) -> Seq<ChangeSpan>,
    lines: Seq<Option<u32>>,
    shown: spec_fn(int) -> bool,
    row: int,
    line: u32,
)
    requires
        0 <= row < lines.len(),
        shown(row),
        lines[row] == Some(line),
    ensures
        exists|first: int|
            0 <= first <= row && shown(first) && #[trigger] lines[first] == Some(line)
                && row_changes(spans, lines, shown, first) == spans(line),
        forall|later: int|
            row < later < lines.len() && #[trigger] lines[later] == Some(line) ==> row_changes(
                spans,
                lines,
                shown,
                later,
            ) == Seq::<ChangeSpan>::empty(),
    decreases row,
{
    assert forall|later: int|
        row < later < lines.len() && #[trigger] lines[later] == Some(line) implies row_changes(
        spans,
        lines,
        shown,
        later,
    ) == Seq::<ChangeSpan>::empty() by {
        assert(lines[row] == Some(line));
        assert(shown_above(lines, shown, later, line));
    }
    if shown_above(lines, shown, row, line) {
        let above = choose|above: int|
            0 <= above < row && shown(above) && #[trigger] lines[above] == Some(line);
        law_marked_once(spans, lines, shown, above, line);
    } else {
        assert(lines[row] == Some(line));
        assert(row_changes(spans, lines, shown, row) == spans(line));
    }
}

/// A chunk shows rows of the alignment as they stand there, one after the other:
/// the rows of its run.
pub proof fn law_chunks_show_aligned_rows<D>(
    file_format: FileFormatModel,
    format_name: Seq<char>,
    lhs_positions: Seq<MatchedPos<D>>,
    rhs_positions: Seq<MatchedPos<D>>,
    lhs_novel: Set<u32>,
    rhs_novel: Set<u32>,
    rows: Seq<AlignedLine>,
    chunk: int,
    line: int,
)
    requires
        0 <= chunk < crate::chunks::chunk_runs(rows, lhs_novel, rhs_novel).len(),
        0 <= line,
        line < crate::chunks::chunk_runs(rows, lhs_novel, rhs_novel)[chunk].1
            - crate::chunks::chunk_runs(rows, lhs_novel, rhs_novel)[chunk].0,
    ensures
        ({
            let result = semantic_result(
                file_format,
                format_name,
                lhs_positions,
                rhs_positions,
                lhs_novel,
                rhs_novel,
                rows,
            );
            let run = crate::chunks::chunk_runs(rows, lhs_novel, rhs_novel)[chunk];
            &&& result.chunks.len() == crate::chunks::chunk_runs(rows, lhs_novel, rhs_novel).len()
            &&& result.chunks[chunk].len() == run.1 - run.0
            &&& result.chunks[chunk][line].lhs_line == result.aligned_lines[run.0 + line].0
            &&& result.chunks[chunk][line].rhs_line == result.aligned_lines[run.0 + line].1
        }),
{
}

impl SemanticLineModel {
    /// The row with its sides exchanged.
    pub open spec fn mirrored(self) -> SemanticLineModel {
        SemanticLineModel {
            lhs_line: self.rhs_line,
            rhs_line: self.lhs_line,
            lhs_changes: self.rhs_changes,
            rhs_changes: self.lhs_changes,
        }
    }
}

impl SemanticDiffModel {
    /// The result with the sides of every row exchanged.
    pub open spec fn mirrored(self) -> SemanticDiffModel {
        SemanticDiffModel {
            chunks: self.chunks.map_values(
                |chunk: Seq<SemanticLineModel>|
                    chunk.map_values(|line: SemanticLineModel| line.mirrored()),
            ),
            aligned_lines: crate::chunks::swapped(self.aligned_lines),
            ..self
        }
    }
}

/// Exchanging the two sides exchanges the sides of every row that is shown and
/// changes nothing else.
pub proof fn law_sides_mirrored<D>(
    file_format: FileFormatModel,
    format_name: Seq<char>,
    lhs_positions: Seq<MatchedPos<D>>,
    rhs_positions: Seq<MatchedPos<D>>,
    lhs_novel: Set<u32>,
    rhs_novel: Set<u32>,
    rows: Seq<AlignedLine>,
)
    ensures
        semantic_result(
            file_format,
            format_name,
            rhs_positions,
            lhs_positions,
            rhs_novel,
            lhs_novel,
            crate::chunks::swapped(rows),
        ) == semantic_result(
            file_format,
            format_name,
            lhs_positions,
            rhs_positions,
            lhs_novel,
            rhs_novel,
            rows,
        ).mirrored(),
{
    let other_rows = crate::chunks::swapped(rows);
    let one = semantic_result(
        file_format,
        format_name,
        lhs_positions,
        rhs_positions,
        lhs_novel,
        rhs_novel,
        rows,
    );
    let other = semantic_result(
        file_format,
        format_name,
        rhs_positions,
        lhs_positions,
        rhs_novel,
        lhs_novel,
        other_rows,
    );
    let shown = |row: int| crate::chunks::row_shown(rows, lhs_novel, rhs_novel, row);
    let other_shown = |row: int|
        crate::chunks::row_shown(other_rows, rhs_novel, lhs_novel, row);
    crate::chunks::law_shown_symmetric(rows, lhs_novel, rhs_novel);
    assert(other_shown =~= shown);
    assert(lhs_column(other_rows) =~= rhs_column(rows));
    assert(rhs_column(other_rows) =~= lhs_column(rows));
    let found = crate::chunks::runs(shown, rows.len());
    crate::chunks::law_runs(shown, rows.len());
    assert forall|k: int| 0 <= k < found.len() implies #[trigger] other.chunks[k]
        == one.mirrored().chunks[k] by {
        assert(0 <= found[k].0 < found[k].1 <= rows.len());
        assert(other.chunks[k] =~= one.mirrored().chunks[k]);
    }
    assert(other.chunks =~= one.mirrored().chunks);
    assert(other.aligned_lines =~= one.mirrored().aligned_lines);
}

/// What a result tells as a whole, by the rows and the changed lines themselves: a
/// file is changed exactly where some row has a changed line. Then all rows come
/// with the result, else none does and none is shown. The name of the format is
/// kept, and a reason is given for a fallback alone.
pub proof fn law_result_told_by_rows<D>(
    file_format: FileFormatModel,
    format_name: Seq<char>,
    lhs_positions: Seq<MatchedPos<D>>,
    rhs_positions: Seq<MatchedPos<D>>,
    lhs_novel: Set<u32>,
    rhs_novel: Set<u32>,
    rows: Seq<AlignedLine>,
)
    ensures
        ({
            let result = semantic_result(
                file_format,
                format_name,
                lhs_positions,
                rhs_positions,
                lhs_novel,
                rhs_novel,
                rows,
            );
            let changed = exists|row: int|
                0 <= row < rows.len() && ({
                    ||| ((#[trigger] rows[row]).0 matches Some(line) && lhs_novel.contains(line))
                    ||| (rows[row].1 matches Some(line) && rhs_novel.contains(line))
                });
            &&& changed ==> result.status == DiffStatus::Changed && result.chunks.len() > 0
                && result.aligned_lines == rows
            &&& !changed ==> result.status == DiffStatus::Unchanged && result.chunks.len() == 0
                && result.aligned_lines.len() == 0
            &&& result.language == format_name
            &&& file_format matches FileFormatModel::TextFallback { reason }
                ==> result.line_fallback_reason == Some(reason)
            &&& !(file_format is TextFallback) ==> result.line_fallback_reason is None
        }),
{
    law_changed_has_rows(
        file_format,
        format_name,
        lhs_positions,
        rhs_positions,
        lhs_novel,
        rhs_novel,
        rows,
    );
    if exists|row: int|
        0 <= row < rows.len() && ({
            ||| ((#[trigger] rows[row]).0 matches Some(line) && lhs_novel.contains(line))
            ||| (rows[row].1 matches Some(line) && rhs_novel.contains(line))
        }) {
        let row = choose|row: int|
            0 <= row < rows.len() && ({
                ||| ((#[trigger] rows[row]).0 matches Some(line) && lhs_novel.contains(line))
                ||| (rows[row].1 matches Some(line) && rhs_novel.contains(line))
            });
        assert(crate::chunks::row_changed(rows[row], lhs_novel, rhs_novel));
    } else {
        assert forall|row: int| 0 <= row < rows.len() implies !crate::chunks::row_changed(
            #[trigger] rows[row],
            lhs_novel,
            rhs_novel,
        ) by {}
    }
}

/// Every row of a chunk is a row of the alignment, and it carries on each side all
/// the changes of its line, or none where a row of the result before it has the
/// same line on that side: the first row with a line has as many spans, at the
/// same columns, as there are changed pieces on the line.
pub proof fn law_first_row_carries_changes<D>(
    file_format: FileFormatModel,
    format_name: Seq<char>,
    lhs_positions: Seq<MatchedPos<D>>,
    rhs_positions: Seq<MatchedPos<D>>,
    lhs_novel: Set<u32>,
    rhs_novel: Set<u32>,
    rows: Seq<AlignedLine>,
    chunk: int,
    line: int,
)
    requires
        0 <= chunk < semantic_result(
            file_format,
            format_name,
            lhs_positions,
            rhs_positions,
            lhs_novel,
            rhs_novel,
            rows,
        ).chunks.len(),
        0 <= line < semantic_result(
            file_format,
            format_name,
            lhs_positions,
            rhs_positions,
            lhs_novel,
            rhs_novel,
            rows,
        ).chunks[chunk].len(),
    ensures
        ({
            let result = semantic_result(
                file_format,
                format_name,
                lhs_positions,
                rhs_positions,
                lhs_novel,
                rhs_novel,
                rows,
            );
            let run = crate::chunks::chunk_runs(rows, lhs_novel, rhs_novel)[chunk];
            let shown = result.chunks[chunk][line];
            &&& result.chunks.len() == crate::chunks::chunk_runs(rows, lhs_novel, rhs_novel).len()
            &&& result.chunks[chunk].len() == run.1 - run.0
            &&& shown.lhs_line == rows[run.0 + line].0
            &&& shown.rhs_line == rows[run.0 + line].1
            &&& shown.lhs_line is None ==> shown.lhs_changes.len() == 0
            &&& shown.lhs_line matches Some(number) ==> ({
                let before = exists|c: int, l: int|
                    0 <= c <= chunk && 0 <= l < result.chunks[c].len() && (c < chunk || l < line)
                        && (#[trigger] result.chunks[c][l]).lhs_line == Some(number);
                &&& before ==> shown.lhs_changes.len() == 0
                &&& !before ==> shown.lhs_changes == crate::matched::line_spans(
                    lhs_positions,
                    number,
                )
                &&& !before ==> shown.lhs_changes.map_values(
                    |span: ChangeSpan| (span.start_col, span.end_col),
                ).to_multiset() == lhs_positions.filter(
                    |matched: MatchedPos<D>| matched.novel && matched.pos.line == number,
                ).map_values(
                    |matched: MatchedPos<D>| (matched.pos.start_col, matched.pos.end_col),
                ).to_multiset()
            })
            &&& shown.rhs_line is None ==> shown.rhs_changes.len() == 0
            &&& shown.rhs_line matches Some(number) ==> ({
                let before = exists|c: int, l: int|
                    0 <= c <= chunk && 0 <= l < result.chunks[c].len() && (c < chunk || l < line)
                        && (#[trigger] result.chunks[c][l]).rhs_line == Some(number);
                &&& before ==> shown.rhs_changes.len() == 0
                &&& !before ==> shown.rhs_changes == crate::matched::line_spans(
                    rhs_positions,
                    number,
                )
                &&& !before ==> shown.rhs_changes.map_values(
                    |span: ChangeSpan| (span.start_col, span.end_col),
                ).to_multiset() == rhs_positions.filter(
                    |matched: MatchedPos<D>| matched.novel && matched.pos.line == number,
                ).map_values(
                    |matched: MatchedPos<D>| (matched.pos.start_col, matched.pos.end_col),
                ).to_multiset()
            })
        }),
{
    let result = semantic_result(
        file_format,
        format_name,
        lhs_positions,
        rhs_positions,
        lhs_novel,
        rhs_novel,
        rows,
    );
    let is_shown = |row: int| crate::chunks::row_shown(rows, lhs_novel, rhs_novel, row);
    let found = crate::chunks::runs(is_shown, rows.len());
    crate::chunks::law_runs(is_shown, rows.len());
    assert(0 <= found[chunk].0 < found[chunk].1 <= rows.len());
    assert forall|c: int| 0 <= c < found.len() implies (#[trigger] result.chunks[c]).len()
        == found[c].1 - found[c].0 by {
        assert(0 <= found[c].0 < found[c].1 <= rows.len());
    }
    assert forall|c: int, l: int|
        0 <= c < found.len() && 0 <= l < result.chunks[c].len() implies (
    #[trigger] result.chunks[c][l]).lhs_line == rows[found[c].0 + l].0
        && result.chunks[c][l].rhs_line == rows[found[c].0 + l].1 by {
        assert(result.chunks[c].len() == found[c].1 - found[c].0);
    }
    let row = found[chunk].0 + line;
    let shown = result.chunks[chunk][line];
    if shown.lhs_line is Some {
        let number = shown.lhs_line->Some_0;
        crate::matched::law_span_columns(lhs_positions, number);
        if shown_above(lhs_column(rows), is_shown, row, number) {
            let above = choose|above: int|
                0 <= above < row && is_shown(above) && #[trigger] lhs_column(rows)[above] == Some(
                    number,
                );
            assert(crate::chunks::covered(found, above));
            let c = choose|c: int|
                0 <= c < found.len() && (#[trigger] found[c]).0 <= above < found[c].1;
            if c > chunk {
                assert(found[chunk].1 < found[c].0);
            }
            let l = above - found[c].0;
            assert(result.chunks[c].len() == found[c].1 - found[c].0);
            assert(result.chunks[c][l].lhs_line == Some(number));
        }
        if exists|c: int, l: int|
            0 <= c <= chunk && 0 <= l < result.chunks[c].len() && (c < chunk || l < line) && (
            #[trigger] result.chunks[c][l]).lhs_line == Some(number) {
            let (c, l) = choose|c: int, l: int|
                0 <= c <= chunk && 0 <= l < result.chunks[c].len() && (c < chunk || l < line) && (
                #[trigger] result.chunks[c][l]).lhs_line == Some(number);
            let above = found[c].0 + l;
            assert(result.chunks[c].len() == found[c].1 - found[c].0);
            assert(found[c].0 <= above < found[c].1);
            assert(0 <= found[c].0 < found[c].1 <= rows.len());
            if c < chunk {
                assert(found[c].1 < found[chunk].0);
            }
            assert(crate::chunks::covered(found, above));
            assert(is_shown(above));
            assert(lhs_column(rows)[above] == Some(number));
            assert(shown_above(lhs_column(rows), is_shown, row, number));
        }
    }
    if shown.rhs_line is Some {
        let number = shown.rhs_line->Some_0;
        crate::matched::law_span_columns(rhs_positions, number);
        if shown_above(rhs_column(rows), is_shown, row, number) {
            let above = choose|above: int|
                0 <= above < row && is_shown(above) && #[trigger] rhs_column(rows)[above] == Some(
                    number,
                );
            assert(crate::chunks::covered(found, above));
            let c = choose|c: int|
                0 <= c < found.len() && (#[trigger] found[c]).0 <= above < found[c].1;
            if c > chunk {
                assert(found[chunk].1 < found[c].0);
            }
            let l = above - found[c].0;
            assert(result.chunks[c].len() == found[c].1 - found[c].0);
            assert(result.chunks[c][l].rhs_line == Some(number));
        }
        if exists|c: int, l: int|
            0 <= c <= chunk && 0 <= l < result.chunks[c].len() && (c < chunk || l < line) && (
            #[trigger] result.chunks[c][l]).rhs_line == Some(number) {
            let (c, l) = choose|c: int, l: int|
                0 <= c <= chunk && 0 <= l < result.chunks[c].len() && (c < chunk || l < line) && (
                #[trigger] result.chunks[c][l]).rhs_line == Some(number);
            let above = found[c].0 + l;
            assert(result.chunks[c].len() == found[c].1 - found[c].0);
            assert(found[c].0 <= above < found[c].1);
            assert(0 <= found[c].0 < found[c].1 <= rows.len());
            if c < chunk {
                assert(found[c].1 < found[chunk].0);
            }
            assert(crate::chunks::covered(found, above));
            assert(is_shown(above));
            assert(rhs_column(rows)[above] == Some(number));
            assert(shown_above(rhs_column(rows), is_shown, row, number));
        }
    }
}

/// A result is told field by field, and so is every row of it.
pub proof fn law_result_view(result: SemanticDiffResult)
    ensures
        result@.status == result.status,
        result@.language == result.language@,
        result.line_fallback_reason matches Some(reason) ==> result@.line_fallback_reason == Some(
            reason@,
        ),
        result.line_fallback_reason is None ==> result@.line_fallback_reason is None,
        result@.aligned_lines == result.aligned_lines@,
        result@.chunks.len() == result.chunks@.len(),
        forall|c: int|
            0 <= c < result.chunks@.len() ==> (#[trigger] result@.chunks[c]).len()
                == result.chunks@[c].lines@.len(),
        forall|c: int, l: int|
            0 <= c < result.chunks@.len() && 0 <= l < result.chunks@[c].lines@.len() ==> {
                let line = result.chunks@[c].lines@[l];
                &&& (#[trigger] result@.chunks[c][l]).lhs_line == line.lhs_line
                &&& result@.chunks[c][l].rhs_line == line.rhs_line
                &&& result@.chunks[c][l].lhs_changes == line.lhs_changes@
                &&& result@.chunks[c][l].rhs_changes == line.rhs_changes@
            },
{
}

} // verus!
