use std::collections::HashSet;
use std::path::Path;

use difftastic::analysis::{Analysis, AnalysisReply};
use difftastic::content::{guess_source, ProbableFileKind};
use difftastic::format::{FileFormat, Language};
use difftastic::matched::{AtomKind, MatchKind, MatchedPos, SingleLineSpan, TokenKind};
use difftastic::options::{
    semantic_diff_options, DiffOptions, FileArgument, SEMANTIC_CONTEXT_LINES,
    SEMANTIC_DEFAULT_PARSE_ERROR_LIMIT, SEMANTIC_PARSE_ERROR_LIMIT_ENV,
};
use difftastic::semantic_diff::{SemanticDiff, SemanticReply, SemanticStage};
use difftastic::timing::Phase;
use difftastic::{diff_bytes_semantic, DiffRequest, DiffStatus, SemanticDiffResult};

fn defaults() -> DiffOptions {
    DiffOptions {
        graph_limit: 3_000_000,
        parse_error_limit: 0,
        check_only: false,
        ignore_comments: false,
        strip_cr: false,
    }
}

fn content(bytes: &[u8]) -> ProbableFileKind {
    match std::str::from_utf8(bytes) {
        Ok(text) => ProbableFileKind::Text(text.to_owned()),
        Err(_) => ProbableFileKind::Binary,
    }
}

fn format_name(format: &FileFormat) -> String {
    match format {
        FileFormat::SupportedLanguage(language) => language.name.clone(),
        FileFormat::PlainText => "Text".to_owned(),
        FileFormat::TextFallback { reason } => format!("Text ({})", reason),
        FileFormat::Binary => "Binary".to_owned(),
    }
}

/// Matches each line against the line with the same number.
fn match_lines(own: &str, other: &str) -> Vec<MatchedPos<u32>> {
    let other_lines: Vec<&str> = other.lines().collect();
    let highlight = TokenKind::Atom(AtomKind::Normal);
    own.lines()
        .enumerate()
        .map(|(number, line)| {
            let novel = other_lines.get(number) != Some(&line);
            MatchedPos {
                kind: if novel {
                    MatchKind::Novel { highlight }
                } else {
                    MatchKind::UnchangedToken { highlight }
                },
                novel,
                pos: SingleLineSpan {
                    line: number as u32,
                    start_col: 0,
                    end_col: line.len() as u32,
                },
                detail: number as u32,
            }
        })
        .collect()
}

fn novel_lines(positions: &[MatchedPos<u32>]) -> HashSet<u32> {
    positions
        .iter()
        .filter(|matched| matched.novel)
        .map(|matched| matched.pos.line)
        .collect()
}

fn align(lhs: &[MatchedPos<u32>], rhs: &[MatchedPos<u32>]) -> Vec<(Option<u32>, Option<u32>)> {
    let count = lhs.len().max(rhs.len());
    (0..count)
        .map(|row| {
            (
                lhs.get(row).map(|matched| matched.pos.line),
                rhs.get(row).map(|matched| matched.pos.line),
            )
        })
        .collect()
}

/// Runs a diff to its end with a line matcher and no grammar at all.
fn run<'a>(mut diff: SemanticDiff<'a, u32>) -> (SemanticDiffResult, Vec<Phase>) {
    for _ in 0..20 {
        let reply = match &diff.stage {
            SemanticStage::GuessContent => SemanticReply::Content {
                lhs_kind: content(diff.input.lhs_bytes),
                rhs_kind: content(diff.input.rhs_bytes),
            },
            SemanticStage::GuessLanguage { .. } => SemanticReply::Language(None),
            SemanticStage::Analyse {
                lhs_src,
                rhs_src,
                analysis,
            } => match analysis {
                Analysis::CompareLines { .. } => {
                    SemanticReply::Analysis(AnalysisReply::LinePositions {
                        lhs: match_lines(lhs_src, rhs_src),
                        rhs: match_lines(rhs_src, lhs_src),
                    })
                }
                _ => panic!("only lines can be compared here"),
            },
            SemanticStage::NameFormat { file_format, .. } => {
                SemanticReply::FormatName(format_name(file_format))
            }
            SemanticStage::NamePositions { found, .. } => {
                SemanticReply::FormatName(format_name(&found.file_format))
            }
            SemanticStage::FindNovelLines { found, .. } => SemanticReply::NovelLines {
                lhs_novel: novel_lines(&found.lhs_positions),
                rhs_novel: novel_lines(&found.rhs_positions),
            },
            SemanticStage::AlignLines { found, .. } => {
                SemanticReply::Alignment(align(&found.lhs_positions, &found.rhs_positions))
            }
            SemanticStage::Finished(result) => return (result.clone(), diff.trace.clone()),
        };
        diff = diff.step(reply);
    }
    panic!("the diff did not end")
}

fn request<'a>(lhs_bytes: &'a [u8], rhs_bytes: &'a [u8]) -> DiffRequest<'a> {
    DiffRequest {
        display_path: "notes.txt",
        lhs_path: Some(Path::new("notes.txt")),
        rhs_path: Some(Path::new("notes.txt")),
        lhs_bytes,
        rhs_bytes,
    }
}

#[test]
fn semantic_diff_allows_best_effort_parse_errors_by_default() {
    assert_eq!(SEMANTIC_PARSE_ERROR_LIMIT_ENV, "DFT_PARSE_ERROR_LIMIT");
    assert_eq!(
        semantic_diff_options(defaults(), None).parse_error_limit,
        SEMANTIC_DEFAULT_PARSE_ERROR_LIMIT
    );
    assert_eq!(SEMANTIC_DEFAULT_PARSE_ERROR_LIMIT, 100);
}

#[test]
fn semantic_diff_includes_context_lines_for_snippets() {
    let (result, _) = run(diff_bytes_semantic(
        DiffRequest {
            display_path: "notes.txt",
            lhs_path: Some(std::path::Path::new("notes.txt")),
            rhs_path: Some(std::path::Path::new("notes.txt")),
            lhs_bytes: b"one\ntwo\nthree\n",
            rhs_bytes: b"one\nTWO\nthree\n",
        },
        defaults(),
        None,
        false,
    ));

    assert_eq!(result.status, DiffStatus::Changed);
    assert_eq!(result.chunks.len(), 1);
    let lines = &result.chunks[0].lines;
    assert_eq!(lines.first().and_then(|line| line.lhs_line), Some(0));
    assert!(lines.iter().any(|line| line.lhs_line == Some(2)));
    assert!(lines.iter().any(|line| line.rhs_line == Some(2)));
}

#[test]
fn semantic_diff_uses_paths_for_created_and_deleted_empty_files() {
    let (created, _) = run(diff_bytes_semantic(
        DiffRequest {
            display_path: "empty.txt",
            lhs_path: None,
            rhs_path: Some(std::path::Path::new("empty.txt")),
            lhs_bytes: b"",
            rhs_bytes: b"",
        },
        defaults(),
        None,
        false,
    ));
    assert_eq!(created.status, DiffStatus::Created);

    let (deleted, _) = run(diff_bytes_semantic(
        DiffRequest {
            display_path: "empty.txt",
            lhs_path: Some(std::path::Path::new("empty.txt")),
            rhs_path: None,
            lhs_bytes: b"",
            rhs_bytes: b"",
        },
        defaults(),
        None,
        false,
    ));
    assert_eq!(deleted.status, DiffStatus::Deleted);
}

#[test]
fn semantic_diff_returns_changed_chunks_without_display_diff_result() {
    let (result, _) = run(diff_bytes_semantic(
        DiffRequest {
            display_path: "notes.txt",
            lhs_path: Some(std::path::Path::new("notes.txt")),
            rhs_path: Some(std::path::Path::new("notes.txt")),
            lhs_bytes: b"one\ntwo\n",
            rhs_bytes: b"one\nthree\n",
        },
        defaults(),
        None,
        false,
    ));

    assert_eq!(result.status, DiffStatus::Changed);
    assert_eq!(result.chunks.len(), 1);
    assert!(!result.aligned_lines.is_empty());
}

#[test]
fn parse_error_limit_is_read_from_text() {
    let largest = usize::MAX.to_string();
    let limit = |text| semantic_diff_options(defaults(), Some(text)).parse_error_limit;
    assert_eq!(limit("0"), 0);
    assert_eq!(limit("7"), 7);
    assert_eq!(limit("+12"), 12);
    assert_eq!(limit("007"), 7);
    assert_eq!(limit(&largest), usize::MAX);
    for bad in ["", "+", "-1", " 7", "7 ", "1_000", "++1", "seven", "99999999999999999999999"] {
        assert_eq!(limit(bad), 100, "{:?}", bad);
        assert!(bad.parse::<usize>().is_err());
    }
    let options = semantic_diff_options(DiffOptions { strip_cr: true, ..defaults() }, Some("7"));
    assert!(options.strip_cr);
    assert_eq!(options.graph_limit, 3_000_000);
}

#[test]
fn binary_side_is_not_compared() {
    let (result, trace) = run(diff_bytes_semantic(
        request(b"\xff\xfe", b"text\n"),
        defaults(),
        None,
        false,
    ));
    assert_eq!(result.status, DiffStatus::Binary);
    assert_eq!(result.language, "Binary");
    assert_eq!(result.line_fallback_reason, None);
    assert!(result.chunks.is_empty());
    assert!(result.aligned_lines.is_empty());
    assert!(trace.is_empty());
}

#[test]
fn same_text_is_unchanged_up_to_the_last_newline() {
    let (result, trace) = run(diff_bytes_semantic(
        request(b"one\ntwo", b"one\ntwo\n"),
        defaults(),
        None,
        false,
    ));
    assert_eq!(result.status, DiffStatus::Unchanged);
    assert_eq!(result.language, "Text");
    assert_eq!(trace, vec![Phase::GuessLanguage, Phase::UnchangedBytes]);
}

#[test]
fn carriage_returns_count_unless_stripped() {
    let strip = DiffOptions { strip_cr: true, ..defaults() };
    let (same, _) = run(diff_bytes_semantic(
        request(b"one\r\ntwo\r\n", b"one\ntwo\n"),
        strip,
        None,
        false,
    ));
    assert_eq!(same.status, DiffStatus::Unchanged);

    let diff: SemanticDiff<'_, u32> =
        diff_bytes_semantic(request(b"one\r\n", b"one\n"), defaults(), None, false);
    let diff = diff.step(SemanticReply::Content {
        lhs_kind: content(b"one\r\n"),
        rhs_kind: content(b"one\n"),
    });
    let diff = diff.step(SemanticReply::Language(None));
    assert!(matches!(diff.stage, SemanticStage::Analyse { .. }));
}

#[test]
fn result_shows_context_around_each_change() {
    let lhs: String = (0..20).map(|n| format!("line {}\n", n)).collect();
    let rhs = lhs.replace("line 4\n", "LINE 4\n").replace("line 15\n", "LINE 15\n");
    let (result, trace) = run(diff_bytes_semantic(
        request(lhs.as_bytes(), rhs.as_bytes()),
        defaults(),
        None,
        false,
    ));
    assert_eq!(result.status, DiffStatus::Changed);
    assert_eq!(result.chunks.len(), 2);
    let shown: Vec<Vec<Option<u32>>> = result
        .chunks
        .iter()
        .map(|chunk| chunk.lines.iter().map(|line| line.lhs_line).collect())
        .collect();
    let rows = |from: u32, to: u32| -> Vec<Option<u32>> { (from..to).map(Some).collect() };
    assert_eq!(shown, vec![rows(1, 8), rows(12, 19)]);
    assert_eq!(SEMANTIC_CONTEXT_LINES, 3);
    assert_eq!(result.aligned_lines.len(), 20);
    for chunk in &result.chunks {
        for line in &chunk.lines {
            let changed = line.lhs_line == Some(4) || line.lhs_line == Some(15);
            assert_eq!(line.lhs_changes.len(), if changed { 1 } else { 0 });
            assert_eq!(line.rhs_changes.len(), if changed { 1 } else { 0 });
        }
    }
    assert_eq!(
        trace,
        vec![
            Phase::GuessLanguage,
            Phase::LanguageConfig,
            Phase::LineDiff,
            Phase::SemanticConvert
        ]
    );
}

#[test]
fn no_novel_line_needs_no_alignment() {
    let diff: SemanticDiff<'_, u32> =
        diff_bytes_semantic(request(b"a\n", b"b\n"), defaults(), None, false);
    let mut diff = diff
        .step(SemanticReply::Content {
            lhs_kind: content(b"a\n"),
            rhs_kind: content(b"b\n"),
        })
        .step(SemanticReply::Language(None))
        .step(SemanticReply::Analysis(AnalysisReply::LinePositions {
            lhs: Vec::new(),
            rhs: Vec::new(),
        }))
        .step(SemanticReply::FormatName("Text".to_owned()));
    diff = diff.step(SemanticReply::NovelLines {
        lhs_novel: HashSet::new(),
        rhs_novel: HashSet::new(),
    });
    match diff.stage {
        SemanticStage::Finished(result) => {
            assert_eq!(result.status, DiffStatus::Unchanged);
            assert!(result.aligned_lines.is_empty());
        }
        _ => panic!("the result is there without an alignment"),
    }
}

#[test]
fn alignment_gets_the_lines_of_both_texts() {
    let diff: SemanticDiff<'_, u32> =
        diff_bytes_semantic(request(b"a\nb", b"c\n"), defaults(), None, false);
    let diff = diff
        .step(SemanticReply::Content {
            lhs_kind: content(b"a\nb"),
            rhs_kind: content(b"c\n"),
        })
        .step(SemanticReply::Language(None))
        .step(SemanticReply::Analysis(AnalysisReply::LinePositions {
            lhs: match_lines("a\nb\n", "c\n"),
            rhs: match_lines("c\n", "a\nb\n"),
        }))
        .step(SemanticReply::FormatName("Text".to_owned()))
        .step(SemanticReply::NovelLines {
            lhs_novel: [0, 1].into_iter().collect(),
            rhs_novel: [0].into_iter().collect(),
        });
    match diff.stage {
        SemanticStage::AlignLines {
            lhs_lines,
            rhs_lines,
            ..
        } => {
            assert_eq!(lhs_lines, vec!["a", "b", ""]);
            assert_eq!(rhs_lines, vec!["c", ""]);
        }
        _ => panic!("lines are aligned next"),
    }
}

#[test]
fn unasked_reply_changes_nothing() {
    let diff: SemanticDiff<'_, u32> =
        diff_bytes_semantic(request(b"a\n", b"b\n"), defaults(), None, false);
    let diff = diff.step(SemanticReply::FormatName("Text".to_owned()));
    assert!(matches!(diff.stage, SemanticStage::GuessContent));
    assert!(diff.trace.is_empty());
}

#[test]
fn fallback_reason_comes_with_the_result() {
    let diff: SemanticDiff<'_, u32> =
        diff_bytes_semantic(request(b"a\n", b"b\n"), defaults(), None, false);
    let mut diff = diff
        .step(SemanticReply::Content {
            lhs_kind: content(b"a\n"),
            rhs_kind: content(b"b\n"),
        })
        .step(SemanticReply::Language(Some(Language {
            name: "Rust".to_owned(),
        })))
        .step(SemanticReply::Analysis(AnalysisReply::Grammar { loaded: true }))
        .step(SemanticReply::Analysis(AnalysisReply::Trees(Ok(()))))
        .step(SemanticReply::Analysis(AnalysisReply::Syntax(Err(101))));
    match &diff.stage {
        SemanticStage::Analyse { analysis, .. } => {
            assert!(matches!(analysis, Analysis::CompareLines { .. }))
        }
        _ => panic!("lines are compared next"),
    }
    diff = diff.step(SemanticReply::Analysis(AnalysisReply::LinePositions {
        lhs: match_lines("a\n", "b\n"),
        rhs: match_lines("b\n", "a\n"),
    }));
    let (result, trace) = run(diff);
    assert_eq!(
        result.line_fallback_reason.as_deref(),
        Some("101 Rust parse errors, exceeded DFT_PARSE_ERROR_LIMIT")
    );
    assert_eq!(result.status, DiffStatus::Changed);
    assert_eq!(
        trace,
        vec![
            Phase::GuessLanguage,
            Phase::LanguageConfig,
            Phase::Parse,
            Phase::Syntax,
            Phase::LineDiff,
            Phase::SemanticConvert
        ]
    );
}

#[test]
fn language_is_guessed_by_the_side_that_exists() {
    let named = FileArgument::NamedPath(std::path::PathBuf::from("a.rs"));
    assert_eq!(guess_source(&named, "left", "right"), "right");
    assert_eq!(guess_source(&FileArgument::DevNull, "left", "right"), "left");
}

#[test]
fn check_only_does_not_shorten_a_semantic_diff() {
    let options = DiffOptions { check_only: true, ..defaults() };
    let (result, _) = run(diff_bytes_semantic(
        request(b"a\n", b"b\n"),
        options,
        None,
        false,
    ));
    assert_eq!(result.status, DiffStatus::Changed);
    assert_eq!(result.chunks.len(), 1);
}

#[test]
fn side_with_content_and_no_path_is_a_file() {
    let sides = |lhs_bytes, rhs_bytes| DiffRequest {
        display_path: "notes.txt",
        lhs_path: None,
        rhs_path: None,
        lhs_bytes,
        rhs_bytes,
    };
    let status = |lhs_bytes, rhs_bytes| {
        let diff = diff_bytes_semantic(sides(lhs_bytes, rhs_bytes), defaults(), None, false);
        run(diff).0.status
    };
    assert_eq!(status(b"", b"new\n"), DiffStatus::Created);
    assert_eq!(status(b"old\n", b""), DiffStatus::Deleted);
    assert_eq!(status(b"", b""), DiffStatus::Unchanged);
    assert_eq!(status(b"old\n", b"new\n"), DiffStatus::Changed);
}

#[test]
fn exchanged_request_exchanges_created_and_deleted() {
    let path = Some(Path::new("notes.txt"));
    let result = |lhs_path, rhs_path, lhs_bytes, rhs_bytes| {
        let request = DiffRequest {
            display_path: "notes.txt",
            lhs_path,
            rhs_path,
            lhs_bytes,
            rhs_bytes,
        };
        run(diff_bytes_semantic(request, defaults(), None, false)).0
    };
    let created = result(None, path, b"", b"new\n");
    let deleted = result(path, None, b"new\n", b"");
    assert_eq!(created.status, DiffStatus::Created);
    assert_eq!(deleted.status, DiffStatus::Deleted);
    assert_eq!(
        deleted,
        SemanticDiffResult {
            status: DiffStatus::Deleted,
            ..created
        }
    );
    assert_eq!(
        result(path, path, b"\xff", b"text\n"),
        result(path, path, b"text\n", b"\xff")
    );
}

#[test]
fn missing_final_newline_shows_after_a_stripped_return_only() {
    let strip = DiffOptions { strip_cr: true, ..defaults() };
    let status = |lhs_bytes, rhs_bytes, options| {
        let diff = diff_bytes_semantic(request(lhs_bytes, rhs_bytes), options, None, false);
        run(diff).0.status
    };
    assert_eq!(status(b"a\nb", b"a\nb\n", defaults()), DiffStatus::Unchanged);
    assert_eq!(status(b"a\nb\n", b"a\nb", defaults()), DiffStatus::Unchanged);
    assert_eq!(status(b"a\nb\r", b"a\nb\r\n", strip), DiffStatus::Unchanged);
    assert_eq!(status(b"a\n\r", b"a\n\r\n", defaults()), DiffStatus::Unchanged);
    assert_eq!(status(b"a\n\r", b"a\n\r\n", strip), DiffStatus::Changed);
}

#[test]
fn lines_of_each_side_are_matched_against_the_other() {
    let (result, _) = run(diff_bytes_semantic(
        request(b"same\nextra\n", b"same\n"),
        defaults(),
        None,
        false,
    ));
    let lines = &result.chunks[0].lines;
    assert_eq!(lines[1].lhs_line, Some(1));
    assert_eq!(lines[1].rhs_line, None);
    assert_eq!(lines[1].lhs_changes.len(), 1);
    assert!(lines.iter().all(|line| line.rhs_changes.is_empty()));
}
