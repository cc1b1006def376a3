use std::collections::HashSet;
use std::path::{Path, PathBuf};

use difftastic::chunks::semantic_chunk_ranges;
use difftastic::format::{
    byte_limit_fallback, byte_limit_reason, file_format_for_language, graph_limit_fallback,
    line_fallback_reason, parse_error_fallback, FileFormat, Language,
};
use difftastic::highlight::HighlightStage;
use difftastic::matched::{
    convert_match_kind, semantic_changes_by_line, AtomKind, MatchKind, MatchedPos, SingleLineSpan,
    StringKind, TokenKind,
};
use difftastic::options::{file_argument_for_side, FileArgument};
use difftastic::semantic::text_positions_to_semantic;
use difftastic::text::{normalize_source, parse_usize, push_decimal, split_lines};
use difftastic::timing::{mark_timing, Phase, TimingLog, TIMINGS_ENV};
use difftastic::{
    highlight_ranges_for_path, ChangeIntensity, ChangeSpan, DiffStatus, DifftasticError,
    HighlightKind, HighlightSpan,
};

fn pos(line: u32, start_col: u32, end_col: u32, novel: bool) -> MatchedPos<()> {
    let highlight = TokenKind::Atom(AtomKind::Keyword);
    MatchedPos {
        kind: if novel {
            MatchKind::NovelWord { highlight }
        } else {
            MatchKind::UnchangedToken { highlight }
        },
        novel,
        pos: SingleLineSpan {
            line,
            start_col,
            end_col,
        },
        detail: (),
    }
}

fn span(start_col: u32, end_col: u32) -> ChangeSpan {
    ChangeSpan {
        start_col,
        end_col,
        highlight: HighlightKind::Keyword,
        intensity: ChangeIntensity::NovelWord,
    }
}

fn set(lines: &[u32]) -> HashSet<u32> {
    lines.iter().copied().collect()
}

fn rows(count: u32) -> Vec<(Option<u32>, Option<u32>)> {
    (0..count).map(|line| (Some(line), Some(line))).collect()
}

#[test]
fn sources_end_with_a_newline() {
    assert_eq!(normalize_source(String::new(), false), "");
    assert_eq!(normalize_source("a".to_owned(), false), "a\n");
    assert_eq!(normalize_source("a\n".to_owned(), false), "a\n");
    assert_eq!(normalize_source("a\r\nb\r".to_owned(), false), "a\r\nb\r\n");
    assert_eq!(normalize_source("a\r\nb\r".to_owned(), true), "a\nb\n");
    assert_eq!(normalize_source("\r\r".to_owned(), true), "");
    assert_eq!(normalize_source("é\r".to_owned(), true), "é\n");
}

#[test]
fn lines_are_cut_at_newlines() {
    assert_eq!(split_lines(""), vec![""]);
    assert_eq!(split_lines("a\nb\n"), vec!["a", "b", ""]);
    assert_eq!(split_lines("\n\nx"), vec!["", "", "x"]);
    assert_eq!(split_lines("a\nb\n").join("\n"), "a\nb\n");
}

#[test]
fn numbers_are_written_and_read_in_decimal() {
    for number in [0, 7, 10, 99, 100, 1234567890, usize::MAX] {
        let mut text = String::from("n=");
        push_decimal(&mut text, number);
        assert_eq!(text, format!("n={}", number));
        assert_eq!(parse_usize(&text[2..]), Some(number));
    }
    assert_eq!(parse_usize("18446744073709551616"), None);
    assert_eq!(parse_usize("12a"), None);
}

#[test]
fn side_is_named_or_missing() {
    assert_eq!(
        file_argument_for_side(Some(Path::new("x/y.rs")), "shown.rs", b""),
        FileArgument::NamedPath(PathBuf::from("x/y.rs"))
    );
    assert_eq!(
        file_argument_for_side(None, "shown.rs", b"content"),
        FileArgument::NamedPath(PathBuf::from("shown.rs"))
    );
    assert_eq!(
        file_argument_for_side(None, "shown.rs", b""),
        FileArgument::DevNull
    );
}

#[test]
fn fallback_reasons_are_worded() {
    assert_eq!(byte_limit_reason("2 MiB".to_owned()), "2 MiB exceeded DFT_BYTE_LIMIT");
    let cases = [
        (byte_limit_fallback(1_048_576), "1 MiB exceeded DFT_BYTE_LIMIT"),
        (byte_limit_fallback(1_100_000), "1.0 MiB exceeded DFT_BYTE_LIMIT"),
        (byte_limit_fallback(1_800), "1.8 KiB exceeded DFT_BYTE_LIMIT"),
        (graph_limit_fallback(), "exceeded DFT_GRAPH_LIMIT"),
        (
            parse_error_fallback(
                1,
                &Language {
                    name: "C++".to_owned(),
                },
            ),
            "1 C++ parse error, exceeded DFT_PARSE_ERROR_LIMIT",
        ),
    ];
    for (format, reason) in &cases {
        assert_eq!(line_fallback_reason(format).as_deref(), Some(*reason));
    }
    assert_eq!(line_fallback_reason(&FileFormat::PlainText), None);
    assert_eq!(line_fallback_reason(&FileFormat::Binary), None);
}

#[test]
fn format_goes_by_the_language() {
    let rust = || Language {
        name: "Rust".to_owned(),
    };
    assert_eq!(
        file_format_for_language(Some(rust())),
        FileFormat::SupportedLanguage(rust())
    );
    assert_eq!(file_format_for_language(None), FileFormat::PlainText);
    assert_eq!(
        line_fallback_reason(&FileFormat::SupportedLanguage(rust())),
        None
    );
}

#[test]
fn match_kinds_are_coloured() {
    let atom = |kind| TokenKind::Atom(kind);
    for (token, colour) in [
        (TokenKind::Delimiter, HighlightKind::Punctuation),
        (
            atom(AtomKind::String(StringKind::StringLiteral)),
            HighlightKind::String,
        ),
        (atom(AtomKind::String(StringKind::Text)), HighlightKind::Normal),
        (atom(AtomKind::Keyword), HighlightKind::Keyword),
        (atom(AtomKind::Comment), HighlightKind::Comment),
        (atom(AtomKind::Type), HighlightKind::Type),
        (atom(AtomKind::Normal), HighlightKind::Normal),
        (atom(AtomKind::TreeSitterError), HighlightKind::Preprocessor),
    ] {
        for (kind, intensity) in [
            (MatchKind::Novel { highlight: token }, ChangeIntensity::Novel),
            (
                MatchKind::NovelWord { highlight: token },
                ChangeIntensity::NovelWord,
            ),
            (
                MatchKind::UnchangedPartOfNovelItem { highlight: token },
                ChangeIntensity::UnchangedContext,
            ),
            (
                MatchKind::UnchangedToken { highlight: token },
                ChangeIntensity::Novel,
            ),
            (MatchKind::Ignored { highlight: token }, ChangeIntensity::Novel),
        ] {
            assert_eq!(convert_match_kind(&kind), (colour, intensity));
        }
    }
}

#[test]
fn changes_are_grouped_by_line_in_order() {
    let positions = vec![
        pos(2, 8, 9, true),
        pos(1, 0, 1, false),
        pos(2, 3, 7, true),
        pos(4, 0, 2, true),
        pos(2, 3, 5, true),
    ];
    let by_line = semantic_changes_by_line(&positions);
    assert_eq!(by_line.len(), 2);
    assert_eq!(by_line[&2], vec![span(3, 5), span(3, 7), span(8, 9)]);
    assert_eq!(by_line[&4], vec![span(0, 2)]);
}

#[test]
fn chunk_ranges_keep_context_and_merge() {
    let ranges = |count: u32, lhs: &[u32], rhs: &[u32]| {
        semantic_chunk_ranges(&rows(count), &set(lhs), &set(rhs))
    };
    assert_eq!(ranges(0, &[], &[]), vec![]);
    assert_eq!(ranges(10, &[], &[]), vec![]);
    assert_eq!(ranges(10, &[0], &[]), vec![(0, 4)]);
    assert_eq!(ranges(10, &[], &[9]), vec![(6, 10)]);
    assert_eq!(ranges(20, &[4], &[10]), vec![(1, 14)]);
    assert_eq!(ranges(20, &[4], &[11]), vec![(1, 15)]);
    assert_eq!(ranges(20, &[4], &[12]), vec![(1, 8), (9, 16)]);
    assert_eq!(ranges(2, &[1], &[0]), vec![(0, 2)]);
    assert_eq!(ranges(20, &[4], &[12]), ranges(20, &[12], &[4]));
    let one_sided = vec![(None, Some(0)), (Some(0), None)];
    assert_eq!(
        semantic_chunk_ranges(&one_sided, &set(&[7]), &set(&[0])),
        vec![(0, 2)]
    );
    assert_eq!(semantic_chunk_ranges(&one_sided, &set(&[7]), &set(&[7])), vec![]);
}

#[test]
fn repeated_line_is_marked_once() {
    let matched = vec![
        (Some(0), Some(0)),
        (Some(0), Some(1)),
        (None, Some(1)),
        (Some(1), None),
    ];
    let result = text_positions_to_semantic(
        &FileFormat::PlainText,
        "Text".to_owned(),
        &[pos(0, 1, 2, true)],
        &[pos(1, 3, 4, true)],
        &set(&[0]),
        &set(&[1]),
        matched.clone(),
    );
    assert_eq!(result.status, DiffStatus::Changed);
    assert_eq!(result.language, "Text");
    assert_eq!(result.aligned_lines, matched);
    assert_eq!(result.chunks.len(), 1);
    let lines = &result.chunks[0].lines;
    assert_eq!(lines.len(), 4);
    let lhs: Vec<usize> = lines.iter().map(|line| line.lhs_changes.len()).collect();
    let rhs: Vec<usize> = lines.iter().map(|line| line.rhs_changes.len()).collect();
    assert_eq!(lhs, vec![1, 0, 0, 0]);
    assert_eq!(rhs, vec![0, 1, 0, 0]);
    assert_eq!(lines[0].lhs_changes, vec![span(1, 2)]);
}

#[test]
fn changed_lines_outside_the_alignment_leave_it_unchanged() {
    let result = text_positions_to_semantic(
        &FileFormat::TextFallback {
            reason: "why".to_owned(),
        },
        "Text".to_owned(),
        &[pos(9, 1, 2, true)],
        &[],
        &set(&[9]),
        &set(&[]),
        rows(3),
    );
    assert_eq!(result.status, DiffStatus::Unchanged);
    assert!(result.chunks.is_empty());
    assert!(result.aligned_lines.is_empty());
    assert_eq!(result.line_fallback_reason.as_deref(), Some("why"));
}

#[test]
fn timing_log_measures_phases() {
    assert_eq!(TIMINGS_ENV, "DFT_TIMINGS");
    assert!(TimingLog::new("a.rs", false, 100).is_none());
    let mut log = TimingLog::new("a.rs", true, 100).unwrap();
    let mut timing = Some(&mut log);
    let entry = mark_timing(&mut timing, Phase::Parse.label(), 130).unwrap();
    assert_eq!(entry.display_path, "a.rs");
    assert_eq!(entry.phase, "parse");
    assert_eq!((entry.elapsed, entry.total), (30, 30));
    let entry = mark_timing(&mut timing, Phase::LineDiff.label(), 150).unwrap();
    assert_eq!(entry.phase, "line_diff");
    assert_eq!((entry.elapsed, entry.total), (20, 50));
    let entry = mark_timing(&mut timing, "back", 90).unwrap();
    assert_eq!((entry.elapsed, entry.total), (0, 0));
    assert_eq!(log.last, 90);
    assert_eq!(log.start, 100);
    assert!(mark_timing(&mut None, "parse", 1).is_none());
}

#[test]
fn phases_have_their_labels() {
    let labels: Vec<&str> = [
        Phase::GuessLanguage,
        Phase::Created,
        Phase::Deleted,
        Phase::UnchangedBytes,
        Phase::LanguageConfig,
        Phase::Parse,
        Phase::Syntax,
        Phase::Unchanged,
        Phase::Dijkstra,
        Phase::Sliders,
        Phase::Positions,
        Phase::LineDiff,
        Phase::SemanticConvert,
    ]
    .iter()
    .map(|phase| phase.label())
    .collect();
    assert_eq!(
        labels,
        vec![
            "guess_language",
            "created",
            "deleted",
            "unchanged_bytes",
            "language_config",
            "parse",
            "syntax",
            "unchanged",
            "dijkstra",
            "sliders",
            "positions",
            "line_diff",
            "semantic_convert"
        ]
    );
}

#[test]
fn highlighting_needs_a_language() {
    match highlight_ranges_for_path(None) {
        HighlightStage::Finished(ranges) => assert_eq!(ranges, Ok(Vec::new())),
        HighlightStage::FindRanges { .. } => panic!("there is no grammar to ask"),
    }
    let asked = || {
        highlight_ranges_for_path(Some(Language {
            name: "Rust".to_owned(),
        }))
    };
    match asked() {
        HighlightStage::FindRanges { language } => assert_eq!(language.name, "Rust"),
        HighlightStage::Finished(_) => panic!("the highlights are found next"),
    }
    let spans = vec![HighlightSpan {
        offset: 1,
        length: 2,
        kind: HighlightKind::Comment,
    }];
    match asked().step(Ok(spans.clone())) {
        HighlightStage::Finished(ranges) => assert_eq!(ranges, Ok(spans)),
        HighlightStage::FindRanges { .. } => panic!("the highlights are there"),
    }
    let error = DifftasticError::new("no grammar".to_owned());
    match asked().step(Err(error.clone())) {
        HighlightStage::Finished(ranges) => assert_eq!(ranges, Err(error)),
        HighlightStage::FindRanges { .. } => panic!("the error is there"),
    }
}

#[test]
fn error_tells_its_message() {
    assert_eq!(
        DifftasticError::new("broken".to_owned()).to_string(),
        "broken"
    );
}

#[test]
fn exchanged_sides_mirror_the_rows() {
    let lhs_positions = [pos(0, 1, 2, true), pos(9, 0, 3, true)];
    let rhs_positions = [pos(1, 3, 4, true)];
    let matched: Vec<(Option<u32>, Option<u32>)> = vec![
        (Some(0), None),
        (Some(1), Some(0)),
        (None, Some(1)),
        (Some(2), Some(2)),
    ];
    let exchanged: Vec<(Option<u32>, Option<u32>)> =
        matched.iter().map(|(lhs, rhs)| (*rhs, *lhs)).collect();
    let one = text_positions_to_semantic(
        &FileFormat::PlainText,
        "Text".to_owned(),
        &lhs_positions,
        &rhs_positions,
        &set(&[0, 9]),
        &set(&[1]),
        matched,
    );
    let other = text_positions_to_semantic(
        &FileFormat::PlainText,
        "Text".to_owned(),
        &rhs_positions,
        &lhs_positions,
        &set(&[1]),
        &set(&[0, 9]),
        exchanged.clone(),
    );
    assert_eq!(other.status, one.status);
    assert_eq!(other.aligned_lines, exchanged);
    assert_eq!(other.chunks.len(), one.chunks.len());
    for (mirrored, chunk) in other.chunks.iter().zip(&one.chunks) {
        assert_eq!(mirrored.lines.len(), chunk.lines.len());
        for (line, shown) in mirrored.lines.iter().zip(&chunk.lines) {
            assert_eq!(line.lhs_line, shown.rhs_line);
            assert_eq!(line.rhs_line, shown.lhs_line);
            assert_eq!(line.lhs_changes, shown.rhs_changes);
            assert_eq!(line.rhs_changes, shown.lhs_changes);
        }
    }
    assert_eq!(one.chunks[0].lines[0].lhs_changes, vec![span(1, 2)]);
}
