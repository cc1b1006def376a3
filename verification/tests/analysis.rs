use difftastic::analysis::{
    text_diff_positions, Analysis, AnalysisReply, AnalysisRules, Outcome, TextDiffPositions,
};
use difftastic::format::{FileFormat, Language};
use difftastic::matched::{AtomKind, MatchKind, MatchedPos, SingleLineSpan, TokenKind};
use difftastic::timing::Phase;

fn rules() -> AnalysisRules {
    AnalysisRules {
        check_only: false,
        ignore_comments: false,
        keep_unchanged: false,
    }
}

fn rust() -> Option<Language> {
    Some(Language {
        name: "Rust".to_owned(),
    })
}

fn pos(line: u32) -> MatchedPos<&'static str> {
    MatchedPos {
        kind: MatchKind::Novel {
            highlight: TokenKind::Atom(AtomKind::Normal),
        },
        novel: true,
        pos: SingleLineSpan {
            line,
            start_col: 0,
            end_col: 1,
        },
        detail: "detail",
    }
}

fn replay(
    language: Option<Language>,
    rules: AnalysisRules,
    replies: Vec<AnalysisReply<&'static str>>,
) -> (Analysis<&'static str>, Vec<Phase>) {
    let mut trace = Vec::new();
    let mut analysis = text_diff_positions(language, rules, &mut trace);
    for reply in replies {
        analysis = analysis.step(rules, reply, &mut trace);
    }
    (analysis, trace)
}

fn positions(analysis: Analysis<&'static str>) -> TextDiffPositions<&'static str> {
    match analysis {
        Analysis::Finished(Outcome::Positions(found)) => found,
        _ => panic!("the analysis has not found positions"),
    }
}

fn fallback_text(format: &FileFormat) -> &str {
    match format {
        FileFormat::TextFallback { reason } => reason,
        _ => panic!("no fallback: {:?}", format),
    }
}

fn lines() -> AnalysisReply<&'static str> {
    AnalysisReply::LinePositions {
        lhs: vec![pos(1)],
        rhs: vec![pos(2), pos(3)],
    }
}

#[test]
fn unknown_language_compares_lines() {
    let (analysis, trace) = replay(None, rules(), vec![lines()]);
    let found = positions(analysis);
    assert_eq!(found.file_format, FileFormat::PlainText);
    assert_eq!(found.lhs_positions, vec![pos(1)]);
    assert_eq!(found.rhs_positions, vec![pos(2), pos(3)]);
    assert_eq!(trace, vec![Phase::LanguageConfig, Phase::LineDiff]);
}

#[test]
fn missing_grammar_compares_lines() {
    let (analysis, _) = replay(
        rust(),
        rules(),
        vec![AnalysisReply::Grammar { loaded: false }, lines()],
    );
    assert_eq!(positions(analysis).file_format, FileFormat::PlainText);
}

#[test]
fn large_texts_compare_lines() {
    let (analysis, trace) = replay(
        rust(),
        rules(),
        vec![
            AnalysisReply::Grammar { loaded: true },
            AnalysisReply::Trees(Err(1_500_000)),
            lines(),
        ],
    );
    assert_eq!(
        fallback_text(&positions(analysis).file_format),
        "1.4 MiB exceeded DFT_BYTE_LIMIT"
    );
    assert_eq!(
        trace,
        vec![Phase::LanguageConfig, Phase::Parse, Phase::LineDiff]
    );
}

#[test]
fn parse_errors_compare_lines() {
    for (count, text) in [
        (1, "1 Rust parse error, exceeded DFT_PARSE_ERROR_LIMIT"),
        (0, "0 Rust parse errors, exceeded DFT_PARSE_ERROR_LIMIT"),
        (2, "2 Rust parse errors, exceeded DFT_PARSE_ERROR_LIMIT"),
        (1234567890, "1234567890 Rust parse errors, exceeded DFT_PARSE_ERROR_LIMIT"),
    ] {
        let (analysis, _) = replay(
            rust(),
            rules(),
            vec![
                AnalysisReply::Grammar { loaded: true },
                AnalysisReply::Trees(Ok(())),
                AnalysisReply::Syntax(Err(count)),
                lines(),
            ],
        );
        assert_eq!(fallback_text(&positions(analysis).file_format), text);
    }
}

fn up_to_sections(count: usize) -> Vec<AnalysisReply<&'static str>> {
    vec![
        AnalysisReply::Grammar { loaded: true },
        AnalysisReply::Trees(Ok(())),
        AnalysisReply::Syntax(Ok(())),
        AnalysisReply::Sections(count),
    ]
}

#[test]
fn matching_stops_at_the_first_section_over_the_limit() {
    let mut replies = up_to_sections(3);
    replies.push(AnalysisReply::Matched { within_limit: true });
    let (analysis, _) = replay(rust(), rules(), replies);
    match analysis {
        Analysis::MatchSection { section, count, .. } => assert_eq!((section, count), (1, 3)),
        _ => panic!("the second section is matched next"),
    }

    let mut replies = up_to_sections(3);
    replies.push(AnalysisReply::Matched { within_limit: true });
    replies.push(AnalysisReply::Matched { within_limit: false });
    replies.push(lines());
    let (analysis, trace) = replay(rust(), rules(), replies);
    let found = positions(analysis);
    assert_eq!(fallback_text(&found.file_format), "exceeded DFT_GRAPH_LIMIT");
    assert_eq!(found.lhs_positions, vec![pos(1)]);
    assert_eq!(
        trace,
        vec![
            Phase::LanguageConfig,
            Phase::Parse,
            Phase::Syntax,
            Phase::Unchanged,
            Phase::Dijkstra,
            Phase::LineDiff
        ]
    );
}

#[test]
fn syntax_positions_end_the_analysis() {
    let mut replies = up_to_sections(2);
    replies.push(AnalysisReply::Matched { within_limit: true });
    replies.push(AnalysisReply::Matched { within_limit: true });
    replies.push(AnalysisReply::SlidersFixed);
    replies.push(AnalysisReply::Positions {
        lhs: vec![pos(5)],
        rhs: vec![pos(6)],
    });
    let (analysis, trace) = replay(rust(), rules(), replies);
    let found = positions(analysis);
    assert_eq!(
        found.file_format,
        FileFormat::SupportedLanguage(Language {
            name: "Rust".to_owned()
        })
    );
    assert_eq!(found.lhs_positions, vec![pos(5)]);
    assert_eq!(found.rhs_positions, vec![pos(6)]);
    assert_eq!(
        trace,
        vec![
            Phase::LanguageConfig,
            Phase::Parse,
            Phase::Syntax,
            Phase::Unchanged,
            Phase::Dijkstra,
            Phase::Sliders,
            Phase::Positions
        ]
    );
}

#[test]
fn nothing_left_to_match_goes_on_to_the_sliders() {
    let (analysis, trace) = replay(rust(), rules(), up_to_sections(0));
    assert!(matches!(analysis, Analysis::FixSliders { .. }));
    assert_eq!(trace.last(), Some(&Phase::Dijkstra));
}

#[test]
fn ignored_comments_are_added_at_the_end() {
    let rules = AnalysisRules {
        ignore_comments: true,
        ..rules()
    };
    let mut replies = up_to_sections(0);
    replies.push(AnalysisReply::SlidersFixed);
    replies.push(AnalysisReply::Positions {
        lhs: vec![pos(5)],
        rhs: vec![],
    });
    replies.push(AnalysisReply::Comments {
        lhs: vec![pos(1)],
        rhs: vec![pos(2)],
    });
    let (analysis, trace) = replay(rust(), rules, replies);
    let found = positions(analysis);
    assert_eq!(found.lhs_positions, vec![pos(5), pos(1)]);
    assert_eq!(found.rhs_positions, vec![pos(2)]);
    assert_eq!(trace.last(), Some(&Phase::Positions));
}

#[test]
fn keeping_unchanged_nodes_matches_everything_at_once() {
    let rules = AnalysisRules {
        keep_unchanged: true,
        ..rules()
    };
    let replies = || {
        vec![
            AnalysisReply::Grammar { loaded: true },
            AnalysisReply::Trees(Ok(())),
            AnalysisReply::Syntax(Ok(())),
        ]
    };
    let (analysis, _) = replay(rust(), rules, replies());
    assert!(matches!(analysis, Analysis::MatchWhole { .. }));

    let mut over = replies();
    over.push(AnalysisReply::Matched { within_limit: false });
    let (analysis, _) = replay(rust(), rules, over);
    match analysis {
        Analysis::CompareLines { file_format } => {
            assert_eq!(fallback_text(&file_format), "exceeded DFT_GRAPH_LIMIT")
        }
        _ => panic!("lines are compared next"),
    }
}

#[test]
fn check_ends_without_matching() {
    let rules = AnalysisRules {
        check_only: true,
        ..rules()
    };
    let (analysis, _) = replay(None, rules, vec![]);
    assert!(matches!(
        analysis,
        Analysis::Finished(Outcome::TextOnly { file_format: FileFormat::PlainText })
    ));

    for changed in [true, false] {
        let (analysis, _) = replay(
            rust(),
            rules,
            vec![
                AnalysisReply::Grammar { loaded: true },
                AnalysisReply::Trees(Ok(())),
                AnalysisReply::Syntax(Ok(())),
                AnalysisReply::SyntaxChanged(changed),
            ],
        );
        match analysis {
            Analysis::Finished(Outcome::SyntaxOnly {
                language,
                changed: told,
            }) => {
                assert_eq!(language.name, "Rust");
                assert_eq!(told, changed);
            }
            _ => panic!("the check has ended"),
        }
    }

    let (analysis, _) = replay(
        rust(),
        rules,
        vec![
            AnalysisReply::Grammar { loaded: true },
            AnalysisReply::Trees(Err(2048)),
        ],
    );
    match analysis {
        Analysis::Finished(Outcome::TextOnly { file_format }) => {
            assert_eq!(fallback_text(&file_format), "2 KiB exceeded DFT_BYTE_LIMIT")
        }
        _ => panic!("the check has ended"),
    }
}

#[test]
fn finished_analysis_stays() {
    let (analysis, trace) = replay(
        None,
        rules(),
        vec![lines(), lines(), AnalysisReply::SlidersFixed],
    );
    assert_eq!(positions(analysis).lhs_positions, vec![pos(1)]);
    assert_eq!(trace.len(), 2);
}
