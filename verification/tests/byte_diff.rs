use std::path::Path;

use difftastic::analysis::{Analysis, AnalysisReply};
use difftastic::byte_diff::{
    check_only_text, ByteDiff, ByteReply, ByteStage, DiffResult, FileContent,
};
use difftastic::content::ProbableFileKind;
use difftastic::error::json_text;
use difftastic::format::{FileFormat, Language};
use difftastic::matched::{AtomKind, MatchKind, MatchedPos, SingleLineSpan, TokenKind};
use difftastic::options::{DiffOptions, DisplayOptions};
use difftastic::{diff_bytes_json, DiffRequest};

fn options() -> DiffOptions {
    DiffOptions {
        graph_limit: 3_000_000,
        parse_error_limit: 0,
        check_only: false,
        ignore_comments: false,
        strip_cr: false,
    }
}

fn text(text: &str) -> ProbableFileKind {
    ProbableFileKind::Text(text.to_owned())
}

fn begin<'a>(lhs: &'a [u8], rhs: &'a [u8], options: DiffOptions) -> ByteDiff<'a, (), u8> {
    diff_bytes_json(
        DiffRequest {
            display_path: "a.txt",
            lhs_path: Some(Path::new("old/a.txt")),
            rhs_path: Some(Path::new("new/a.txt")),
            lhs_bytes: lhs,
            rhs_bytes: rhs,
        },
        options,
        DisplayOptions {
            num_context_lines: 5,
        },
        false,
    )
}

fn result(diff: ByteDiff<'_, (), u8>) -> DiffResult<(), u8> {
    match diff.stage {
        ByteStage::Finished(result) => result,
        _ => panic!("the diff has not ended"),
    }
}

fn pos(line: u32) -> MatchedPos<()> {
    MatchedPos {
        kind: MatchKind::NovelWord {
            highlight: TokenKind::Atom(AtomKind::Keyword),
        },
        novel: true,
        pos: SingleLineSpan {
            line,
            start_col: 2,
            end_col: 4,
        },
        detail: (),
    }
}

#[test]
fn binary_files_compare_bytes() {
    let diff = begin(b"\x00\x01\x02", b"\x00", options()).step(ByteReply::Content {
        lhs_kind: ProbableFileKind::Binary,
        rhs_kind: text("x"),
    });
    let found = result(diff);
    assert_eq!(found.has_byte_changes, Some((3, 1)));
    assert!(!found.has_syntactic_changes);
    assert_eq!(found.file_format, FileFormat::Binary);
    assert_eq!(found.lhs_src, FileContent::Binary);
    assert_eq!(found.rhs_src, FileContent::Binary);
    assert_eq!(found.display_path, "a.txt");
    assert_eq!(found.extra_info, None);

    for (lhs, rhs, changes) in [
        (&b"\x00\x01"[..], &b"\x00\x01"[..], None),
        (&b"\x00\x01"[..], &b"\x00\x02"[..], Some((2, 2))),
    ] {
        let diff = begin(lhs, rhs, options()).step(ByteReply::Content {
            lhs_kind: ProbableFileKind::Binary,
            rhs_kind: ProbableFileKind::Binary,
        });
        assert_eq!(result(diff).has_byte_changes, changes);
    }
}

#[test]
fn unchanged_files_carry_no_text() {
    let diff = begin(b"same", b"same\n", options())
        .step(ByteReply::Content {
            lhs_kind: text("same"),
            rhs_kind: text("same\n"),
        })
        .step(ByteReply::Language(Some(Language {
            name: "Rust".to_owned(),
        })));
    let found = result(diff);
    assert_eq!(found.has_byte_changes, None);
    assert!(!found.has_syntactic_changes);
    assert_eq!(found.lhs_src, FileContent::Text(String::new()));
    assert_eq!(found.rhs_src, FileContent::Text(String::new()));
    assert_eq!(
        found.file_format,
        FileFormat::SupportedLanguage(Language {
            name: "Rust".to_owned()
        })
    );
}

fn compared(hunks: Vec<u8>) -> DiffResult<(), u8> {
    let diff = begin("é".as_bytes(), b"ee", options())
        .step(ByteReply::Content {
            lhs_kind: text("é"),
            rhs_kind: text("ee"),
        })
        .step(ByteReply::Language(None));
    match &diff.stage {
        ByteStage::Analyse { analysis, .. } => {
            assert!(matches!(analysis, Analysis::CompareLines { .. }))
        }
        _ => panic!("the texts are compared next"),
    }
    let diff = diff.step(ByteReply::Analysis(AnalysisReply::LinePositions {
        lhs: vec![pos(0)],
        rhs: vec![pos(0), pos(1)],
    }));
    match &diff.stage {
        ByteStage::MergeHunks {
            lhs_src,
            rhs_src,
            num_context_lines,
            ..
        } => {
            assert_eq!(lhs_src, "é\n");
            assert_eq!(rhs_src, "ee\n");
            assert_eq!(*num_context_lines, 5);
        }
        _ => panic!("hunks are made next"),
    }
    result(diff.step(ByteReply::Hunks(hunks)))
}

#[test]
fn changed_files_carry_hunks_and_sizes() {
    let found = compared(vec![7, 8]);
    assert_eq!(found.has_byte_changes, Some((3, 3)));
    assert!(found.has_syntactic_changes);
    assert_eq!(found.hunks, vec![7, 8]);
    assert_eq!(found.lhs_positions, vec![pos(0)]);
    assert_eq!(found.rhs_positions, vec![pos(0), pos(1)]);
    assert_eq!(found.lhs_src, FileContent::Text("é\n".to_owned()));
    assert_eq!(found.file_format, FileFormat::PlainText);

    let found = compared(vec![]);
    assert!(!found.has_syntactic_changes);
    assert_eq!(found.has_byte_changes, Some((3, 3)));
}

#[test]
fn check_of_text_reports_sizes_only() {
    let checking = DiffOptions {
        check_only: true,
        ..options()
    };
    let diff = begin(b"a", b"bcd", checking)
        .step(ByteReply::Content {
            lhs_kind: text("a"),
            rhs_kind: text("bcd"),
        })
        .step(ByteReply::Language(None));
    let found = result(diff);
    assert_eq!(found.has_byte_changes, Some((2, 4)));
    assert!(found.has_syntactic_changes);
    assert!(found.hunks.is_empty());
    assert!(found.lhs_positions.is_empty());
}

#[test]
fn check_of_syntax_tells_whether_it_changed() {
    let checking = DiffOptions {
        check_only: true,
        ..options()
    };
    for changed in [true, false] {
        let diff = begin(b"a", b"b", checking)
            .step(ByteReply::Content {
                lhs_kind: text("a"),
                rhs_kind: text("b"),
            })
            .step(ByteReply::Language(Some(Language {
                name: "Rust".to_owned(),
            })))
            .step(ByteReply::Analysis(AnalysisReply::Grammar { loaded: true }))
            .step(ByteReply::Analysis(AnalysisReply::Trees(Ok(()))))
            .step(ByteReply::Analysis(AnalysisReply::Syntax(Ok(()))))
            .step(ByteReply::Analysis(AnalysisReply::SyntaxChanged(changed)));
        let found = result(diff);
        assert_eq!(found.has_syntactic_changes, changed);
        assert_eq!(found.has_byte_changes, Some((2, 2)));
        assert!(found.hunks.is_empty());
    }
}

#[test]
fn check_only_text_of_equal_texts_finds_nothing() {
    let found: DiffResult<(), u8> = check_only_text(&FileFormat::PlainText, "p", "x\n", "x\n");
    assert_eq!(found.has_byte_changes, None);
    assert!(!found.has_syntactic_changes);
    assert_eq!(found.lhs_src, FileContent::Text("x\n".to_owned()));
    assert_eq!(found.display_path, "p");

    let fallback = FileFormat::TextFallback {
        reason: "why".to_owned(),
    };
    let found: DiffResult<(), u8> = check_only_text(&fallback, "p", "x\n", "");
    assert_eq!(found.has_byte_changes, Some((2, 0)));
    assert!(found.has_syntactic_changes);
    assert_eq!(found.file_format, fallback);
}

#[test]
fn json_text_keeps_the_text_or_the_message() {
    assert_eq!(json_text(Ok("{}".to_owned())), Ok("{}".to_owned()));
    let error = serde_json::from_str::<serde_json::Value>("{").unwrap_err();
    let message = error.to_string();
    let own = json_text(Err(error)).unwrap_err();
    assert_eq!(own.to_string(), message);
    assert_eq!(message, "EOF while parsing an object at line 1 column 1");
}
