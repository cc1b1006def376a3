//! The comparison of two texts, one step at a time.
//!
//! Parsers, tree matchers and line matchers are not part of this library. An
//! [`Analysis`] says what it needs next, the program around it does that and
//! hands back a reply, and the analysis decides how to go on: whether syntax is
//! compared at all, when lines are compared in its place and why, and what the
//! outcome is.

use vstd::prelude::*;

use crate::format::{
    byte_limit_fallback, graph_limit_fallback, parse_error_fallback, FileFormat, FileFormatModel,
    Language, SIZE_DECIMAL_PLACES,
};
use crate::matched::MatchedPos;
use crate::timing::Phase;

verus! {

/// The positions found on both sides, and how the texts were understood.
pub struct TextDiffPositions<D> {
    pub file_format: FileFormat,
    pub lhs_positions: Vec<MatchedPos<D>>,
    pub rhs_positions: Vec<MatchedPos<D>>,
}

/// How an analysis ends.
pub enum Outcome<D> {
    /// Both sides were matched.
    Positions(TextDiffPositions<D>),
    /// Only whether something changed was asked, and that shows in the text.
    TextOnly { file_format: FileFormat },
    /// Only whether something changed was asked, and that shows in the syntax.
    SyntaxOnly { language: Language, changed: bool },
}

/// What an analysis needs next.
pub enum Analysis<D> {
    /// Load the grammar of a language.
    LoadGrammar { language: Language },
    /// Parse both texts, unless they are too large.
    ParseTrees { language: Language },
    /// Build syntax nodes of both trees, unless they have too many errors.
    BuildSyntax { language: Language },
    /// Find whether the syntax nodes of the two sides differ.
    CompareSyntax { language: Language },
    /// Mark the nodes that are unchanged, which leaves sections to match.
    MarkUnchanged { language: Language },
    /// Match all nodes of one side against all of the other.
    MatchWhole { language: Language },
    /// Match the nodes of one of the sections that are left.
    MatchSection { language: Language, section: usize, count: usize },
    /// Move ambiguous changes to where a reader expects them, on both sides.
    FixSliders { language: Language },
    /// Read off the positions of both sides.
    ChangePositions { language: Language },
    /// Find the comments of both sides, which were left out of the match.
    CommentPositions {
        language: Language,
        lhs_positions: Vec<MatchedPos<D>>,
        rhs_positions: Vec<MatchedPos<D>>,
    },
    /// Match the lines of the two texts.
    CompareLines { file_format: FileFormat },
    /// Nothing more.
    Finished(Outcome<D>),
}

/// What came of what an analysis asked for.
pub enum AnalysisReply<D> {
    Grammar { loaded: bool },
    /// An error is the size of texts that are too large, in bytes.
    Trees(Result<(), usize>),
    /// An error is the number of parse errors, where there are too many.
    Syntax(Result<(), usize>),
    SyntaxChanged(bool),
    Sections(usize),
    Matched { within_limit: bool },
    SlidersFixed,
    Positions { lhs: Vec<MatchedPos<D>>, rhs: Vec<MatchedPos<D>> },
    Comments { lhs: Vec<MatchedPos<D>>, rhs: Vec<MatchedPos<D>> },
    /// The positions of the left text matched against the right one, and of the
    /// right text matched against the left one.
    LinePositions { lhs: Vec<MatchedPos<D>>, rhs: Vec<MatchedPos<D>> },
}

/// What an analysis goes by, from its start to its end.
#[derive(Debug, Clone, Copy, PartialEq, Eq, Structural)]
pub struct AnalysisRules {
    /// Only find whether something changed.
    pub check_only: bool,
    /// Leave comments out of the match.
    pub ignore_comments: bool,
    /// Match everything, also what is plainly unchanged.
    pub keep_unchanged: bool,
}

/// [`TextDiffPositions`] with its lists as sequences.
pub struct TextDiffModel<D> {
    pub file_format: FileFormatModel,
    pub lhs_positions: Seq<MatchedPos<D>>,
    pub rhs_positions: Seq<MatchedPos<D>>,
}

/// An [`Outcome`] with its texts and lists as sequences.
pub enum OutcomeModel<D> {
    Positions(TextDiffModel<D>),
    TextOnly { file_format: FileFormatModel },
    SyntaxOnly { language: Seq<char>, changed: bool },
}

/// An [`Analysis`] with its texts and lists as sequences.
pub enum AnalysisModel<D> {
    LoadGrammar { language: Seq<char> },
    ParseTrees { language: Seq<char> },
    BuildSyntax { language: Seq<char> },
    CompareSyntax { language: Seq<char> },
    MarkUnchanged { language: Seq<char> },
    MatchWhole { language: Seq<char> },
    MatchSection { language: Seq<char>, section: int, count: int },
    FixSliders { language: Seq<char> },
    ChangePositions { language: Seq<char> },
    CommentPositions {
        language: Seq<char>,
        lhs_positions: Seq<MatchedPos<D>>,
        rhs_positions: Seq<MatchedPos<D>>,
    },
    CompareLines { file_format: FileFormatModel },
    Finished(OutcomeModel<D>),
}

/// An [`AnalysisReply`] with its lists as sequences.
pub enum AnalysisReplyModel<D> {
    Grammar { loaded: bool },
    Trees(Result<(), usize>),
    Syntax(Result<(), usize>),
    SyntaxChanged(bool),
    Sections(int),
    Matched { within_limit: bool },
    SlidersFixed,
    Positions { lhs: Seq<MatchedPos<D>>, rhs: Seq<MatchedPos<D>> },
    Comments { lhs: Seq<MatchedPos<D>>, rhs: Seq<MatchedPos<D>> },
    LinePositions { lhs: Seq<MatchedPos<D>>, rhs: Seq<MatchedPos<D>> },
}

impl<D> View for TextDiffPositions<D> {
    type V = TextDiffModel<D>;

    open spec fn view(&self) -> TextDiffModel<D> {
        TextDiffModel {
            file_format: self.file_format@,
            lhs_positions: self.lhs_positions@,
            rhs_positions: self.rhs_positions@,
        }
    }
}

impl<D> View for Outcome<D> {
    type V = OutcomeModel<D>;

    open spec fn view(&self) -> OutcomeModel<D> {
        match *self {
            Outcome::Positions(found) => OutcomeModel::Positions(found@),
            Outcome::TextOnly { file_format } => OutcomeModel::TextOnly {
                file_format: file_format@,
            },
            Outcome::SyntaxOnly { language, changed } => OutcomeModel::SyntaxOnly {
                language: language@,
                changed,
            },
        }
    }
}

impl<D> View for Analysis<D> {
    type V = AnalysisModel<D>;

    open spec fn view(&self) -> AnalysisModel<D> {
        match *self {
            Analysis::LoadGrammar { language } => AnalysisModel::LoadGrammar {
                language: language@,
            },
            Analysis::ParseTrees { language } => AnalysisModel::ParseTrees { language: language@ },
            Analysis::BuildSyntax { language } => AnalysisModel::BuildSyntax {
                language: language@,
            },
            Analysis::CompareSyntax { language } => AnalysisModel::CompareSyntax {
                language: language@,
            },
            Analysis::MarkUnchanged { language } => AnalysisModel::MarkUnchanged {
                language: language@,
            },
            Analysis::MatchWhole { language } => AnalysisModel::MatchWhole { language: language@ },
            Analysis::MatchSection { language, section, count } => AnalysisModel::MatchSection {
                language: language@,
                section: section as int,
                count: count as int,
            },
            Analysis::FixSliders { language } => AnalysisModel::FixSliders { language: language@ },
            Analysis::ChangePositions { language } => AnalysisModel::ChangePositions {
                language: language@,
            },
            Analysis::CommentPositions { language, lhs_positions, rhs_positions } =>
                AnalysisModel::CommentPositions {
                language: language@,
                lhs_positions: lhs_positions@,
                rhs_positions: rhs_positions@,
            },
            Analysis::CompareLines { file_format } => AnalysisModel::CompareLines {
                file_format: file_format@,
            },
            Analysis::Finished(outcome) => AnalysisModel::Finished(outcome@),
        }
    }
}

impl<D> View for AnalysisReply<D> {
    type V = AnalysisReplyModel<D>;

    open spec fn view(&self) -> AnalysisReplyModel<D> {
        match *self {
            AnalysisReply::Grammar { loaded } => AnalysisReplyModel::Grammar { loaded },
            AnalysisReply::Trees(parsed) => AnalysisReplyModel::Trees(parsed),
            AnalysisReply::Syntax(built) => AnalysisReplyModel::Syntax(built),
            AnalysisReply::SyntaxChanged(changed) => AnalysisReplyModel::SyntaxChanged(changed),
            AnalysisReply::Sections(count) => AnalysisReplyModel::Sections(count as int),
            AnalysisReply::Matched { within_limit } => AnalysisReplyModel::Matched {
                within_limit,
            },
            AnalysisReply::SlidersFixed => AnalysisReplyModel::SlidersFixed,
            AnalysisReply::Positions { lhs, rhs } => AnalysisReplyModel::Positions {
                lhs: lhs@,
                rhs: rhs@,
            },
            AnalysisReply::Comments { lhs, rhs } => AnalysisReplyModel::Comments {
                lhs: lhs@,
                rhs: rhs@,
            },
            AnalysisReply::LinePositions { lhs, rhs } => AnalysisReplyModel::LinePositions {
                lhs: lhs@,
                rhs: rhs@,
            },
        }
    }
}

/// The format of texts of that many bytes that were not parsed.
pub open spec fn too_large(num_bytes: usize) -> FileFormatModel {
    FileFormatModel::TextFallback {
        reason: crate::format::byte_limit_text(
            crate::format::human_size(num_bytes, SIZE_DECIMAL_PLACES),
        ),
    }
}

/// The format of texts with that many parse errors.
pub open spec fn too_many_errors(error_count: usize, language: Seq<char>) -> FileFormatModel {
    FileFormatModel::TextFallback {
        reason: crate::format::parse_error_text(error_count, language),
    }
}

/// The format of texts whose syntax took too long to match.
pub open spec fn too_complex() -> FileFormatModel {
    FileFormatModel::TextFallback { reason: crate::format::graph_limit_text() }
}

impl<D> AnalysisModel<D> {
    /// How an analysis goes on where syntax is not compared.
    pub open spec fn by_lines(rules: AnalysisRules, file_format: FileFormatModel) -> Self {
        if rules.check_only {
            AnalysisModel::Finished(OutcomeModel::TextOnly { file_format })
        } else {
            AnalysisModel::CompareLines { file_format }
        }
    }

    /// How an analysis of texts in the guessed language begins.
    pub open spec fn start(language: Option<Seq<char>>, rules: AnalysisRules) -> Self {
        match language {
            Some(language) => AnalysisModel::LoadGrammar { language },
            None => Self::by_lines(rules, FileFormatModel::PlainText),
        }
    }

    /// How an analysis goes on after a section was matched.
    pub open spec fn next_section(language: Seq<char>, section: int, count: int) -> Self {
        if section < count {
            AnalysisModel::MatchSection { language, section, count }
        } else {
            AnalysisModel::FixSliders { language }
        }
    }

    /// The end of an analysis that found positions.
    pub open spec fn found(
        file_format: FileFormatModel,
        lhs_positions: Seq<MatchedPos<D>>,
        rhs_positions: Seq<MatchedPos<D>>,
    ) -> Self {
        AnalysisModel::Finished(
            OutcomeModel::Positions(TextDiffModel { file_format, lhs_positions, rhs_positions }),
        )
    }

    /// How an analysis goes on after a reply. A reply to something that was not
    /// asked changes nothing.
    pub open spec fn next(self, rules: AnalysisRules, reply: AnalysisReplyModel<D>) -> Self {
        match (self, reply) {
            (
                AnalysisModel::LoadGrammar { language },
                AnalysisReplyModel::Grammar { loaded },
            ) => if loaded {
                AnalysisModel::ParseTrees { language }
            } else {
                Self::by_lines(rules, FileFormatModel::PlainText)
            },
            (
                AnalysisModel::ParseTrees { language },
                AnalysisReplyModel::Trees(parsed),
            ) => match parsed {
                Ok(_) => AnalysisModel::BuildSyntax { language },
                Err(num_bytes) => Self::by_lines(rules, too_large(num_bytes)),
            },
            (
                AnalysisModel::BuildSyntax { language },
                AnalysisReplyModel::Syntax(built),
            ) => match built {
                Ok(_) => if rules.check_only {
                    AnalysisModel::CompareSyntax { language }
                } else if rules.keep_unchanged {
                    AnalysisModel::MatchWhole { language }
                } else {
                    AnalysisModel::MarkUnchanged { language }
                },
                Err(error_count) => Self::by_lines(rules, too_many_errors(error_count, language)),
            },
            (
                AnalysisModel::CompareSyntax { language },
                AnalysisReplyModel::SyntaxChanged(changed),
            ) => AnalysisModel::Finished(OutcomeModel::SyntaxOnly { language, changed }),
            (
                AnalysisModel::MarkUnchanged { language },
                AnalysisReplyModel::Sections(count),
            ) => Self::next_section(language, 0, count),
            (
                AnalysisModel::MatchWhole { language },
                AnalysisReplyModel::Matched { within_limit },
            ) => if within_limit {
                AnalysisModel::FixSliders { language }
            } else {
                AnalysisModel::CompareLines { file_format: too_complex() }
            },
            (
                AnalysisModel::MatchSection { language, section, count },
                AnalysisReplyModel::Matched { within_limit },
            ) => if within_limit {
                Self::next_section(language, section + 1, count)
            } else {
                AnalysisModel::CompareLines { file_format: too_complex() }
            },
            (
                AnalysisModel::FixSliders { language },
                AnalysisReplyModel::SlidersFixed,
            ) => AnalysisModel::ChangePositions { language },
            (
                AnalysisModel::ChangePositions { language },
                AnalysisReplyModel::Positions { lhs, rhs },
            ) => if rules.ignore_comments {
                AnalysisModel::CommentPositions {
                    language,
                    lhs_positions: lhs,
                    rhs_positions: rhs,
                }
            } else {
                Self::found(FileFormatModel::SupportedLanguage(language), lhs, rhs)
            },
            (
                AnalysisModel::CommentPositions { language, lhs_positions, rhs_positions },
                AnalysisReplyModel::Comments { lhs, rhs },
            ) => Self::found(
                FileFormatModel::SupportedLanguage(language),
                lhs_positions + lhs,
                rhs_positions + rhs,
            ),
            (
                AnalysisModel::CompareLines { file_format },
                AnalysisReplyModel::LinePositions { lhs, rhs },
            ) => Self::found(file_format, lhs, rhs),
            _ => self,
        }
    }

    /// The phases that are over when an analysis begins.
    pub open spec fn start_phases(language: Option<Seq<char>>) -> Seq<Phase> {
        if language is None {
            seq![Phase::LanguageConfig]
        } else {
            Seq::empty()
        }
    }

    /// The phases that a reply ends.
    pub open spec fn phases(self, rules: AnalysisRules, reply: AnalysisReplyModel<D>) -> Seq<
        Phase,
    > {
        match (self, reply) {
            (
                AnalysisModel::LoadGrammar { .. },
                AnalysisReplyModel::Grammar { .. },
            ) => seq![Phase::LanguageConfig],
            (AnalysisModel::ParseTrees { .. }, AnalysisReplyModel::Trees(_)) => seq![Phase::Parse],
            (
                AnalysisModel::BuildSyntax { .. },
                AnalysisReplyModel::Syntax(built),
            ) => if built is Ok && !rules.check_only && rules.keep_unchanged {
                seq![Phase::Syntax, Phase::Unchanged]
            } else {
                seq![Phase::Syntax]
            },
            (
                AnalysisModel::MarkUnchanged { .. },
                AnalysisReplyModel::Sections(count),
            ) => if count > 0 {
                seq![Phase::Unchanged]
            } else {
                seq![Phase::Unchanged, Phase::Dijkstra]
            },
            (
                AnalysisModel::MatchWhole { .. },
                AnalysisReplyModel::Matched { .. },
            ) => seq![Phase::Dijkstra],
            (
                AnalysisModel::MatchSection { section, count, .. },
                AnalysisReplyModel::Matched { within_limit },
            ) => if within_limit && section + 1 < count {
                Seq::empty()
            } else {
                seq![Phase::Dijkstra]
            },
            (
                AnalysisModel::FixSliders { .. },
                AnalysisReplyModel::SlidersFixed,
            ) => seq![Phase::Sliders],
            (
                AnalysisModel::ChangePositions { .. },
                AnalysisReplyModel::Positions { .. },
            ) => if rules.ignore_comments {
                Seq::empty()
            } else {
                seq![Phase::Positions]
            },
            (
                AnalysisModel::CommentPositions { .. },
                AnalysisReplyModel::Comments { .. },
            ) => seq![Phase::Positions],
            (
                AnalysisModel::CompareLines { .. },
                AnalysisReplyModel::LinePositions { .. },
            ) => seq![Phase::LineDiff],
            _ => Seq::empty(),
        }
    }
}

fn by_lines<D>(rules: AnalysisRules, file_format: FileFormat) -> (r: Analysis<D>)
    ensures
        r@ == AnalysisModel::<D>::by_lines(rules, file_format@),
{
    if rules.check_only {
        Analysis::Finished(Outcome::TextOnly { file_format })
    } else {
        Analysis::CompareLines { file_format }
    }
}

/// Begins the comparison of two texts whose language was guessed, or could not
/// be. The phases that this ends are added to `trace`.
pub fn text_diff_positions<D>(
    language: Option<Language>,
    rules: AnalysisRules,
    trace: &mut Vec<Phase>,
) -> (r: Analysis<D>)
    ensures
        r@ == AnalysisModel::<D>::start(crate::format::optional_language(language), rules),
        final(trace)@ == old(trace)@ + AnalysisModel::<D>::start_phases(
            crate::format::optional_language(language),
        ),
{
    let ghost before = trace@;
    match language {
        Some(language) => {
            proof {
                assert(trace@ =~= before + AnalysisModel::<D>::start_phases(Some(language@)));
            }
            Analysis::LoadGrammar { language }
        },
        None => {
            trace.push(Phase::LanguageConfig);
            proof {
                assert(trace@ =~= before + AnalysisModel::<D>::start_phases(None));
            }
            by_lines(rules, FileFormat::PlainText)
        },
    }
}

impl<D> Analysis<D> {
    /// Goes on after a reply. The phases that this ends are added to `trace`.
    pub fn step(
        self,
        rules: AnalysisRules,
        reply: AnalysisReply<D>,
        trace: &mut Vec<Phase>,
    ) -> (r: Self)
        ensures
            r@ == self@.next(rules, reply@),
            final(trace)@ == old(trace)@ + self@.phases(rules, reply@),
    {
        let ghost before = trace@;
        let ghost ended = self@.phases(rules, reply@);
        let next = match (self, reply) {
            (Analysis::LoadGrammar { language }, AnalysisReply::Grammar { loaded }) => {
                trace.push(Phase::LanguageConfig);
                if loaded {
                    Analysis::ParseTrees { language }
                } else {
                    by_lines(rules, FileFormat::PlainText)
                }
            },
            (Analysis::ParseTrees { language }, AnalysisReply::Trees(parsed)) => {
                trace.push(Phase::Parse);
                match parsed {
                    Ok(_) => Analysis::BuildSyntax { language },
                    Err(num_bytes) => by_lines(rules, byte_limit_fallback(num_bytes)),
                }
            },
            (Analysis::BuildSyntax { language }, AnalysisReply::Syntax(built)) => {
                trace.push(Phase::Syntax);
                match built {
                    Ok(_) => {
                        if rules.check_only {
                            Analysis::CompareSyntax { language }
                        } else if rules.keep_unchanged {
                            trace.push(Phase::Unchanged);
                            Analysis::MatchWhole { language }
                        } else {
                            Analysis::MarkUnchanged { language }
                        }
                    },
                    Err(error_count) => by_lines(
                        rules,
                        parse_error_fallback(error_count, &language),
                    ),
                }
            },
            (Analysis::CompareSyntax { language }, AnalysisReply::SyntaxChanged(changed)) => {
                Analysis::Finished(Outcome::SyntaxOnly { language, changed })
            },
            (Analysis::MarkUnchanged { language }, AnalysisReply::Sections(count)) => {
                trace.push(Phase::Unchanged);
                if count > 0 {
                    Analysis::MatchSection { language, section: 0, count }
                } else {
                    trace.push(Phase::Dijkstra);
                    Analysis::FixSliders { language }
                }
            },
            (Analysis::MatchWhole { language }, AnalysisReply::Matched { within_limit }) => {
                trace.push(Phase::Dijkstra);
                if within_limit {
                    Analysis::FixSliders { language }
                } else {
                    Analysis::CompareLines { file_format: graph_limit_fallback() }
                }
            },
            (
                Analysis::MatchSection { language, section, count },
                AnalysisReply::Matched { within_limit },
            ) => {
                if within_limit && section < count && 1 < count - section {
                    Analysis::MatchSection { language, section: section + 1, count }
                } else {
                    trace.push(Phase::Dijkstra);
                    if within_limit {
                        Analysis::FixSliders { language }
                    } else {
                        Analysis::CompareLines { file_format: graph_limit_fallback() }
                    }
                }
            },
            (Analysis::FixSliders { language }, AnalysisReply::SlidersFixed) => {
                trace.push(Phase::Sliders);
                Analysis::ChangePositions { language }
            },
            (Analysis::ChangePositions { language }, AnalysisReply::Positions { lhs, rhs }) => {
                if rules.ignore_comments {
                    Analysis::CommentPositions { language, lhs_positions: lhs, rhs_positions: rhs }
                } else {
                    trace.push(Phase::Positions);
                    Analysis::Finished(
                        Outcome::Positions(
                            TextDiffPositions {
                                file_format: FileFormat::SupportedLanguage(language),
                                lhs_positions: lhs,
                                rhs_positions: rhs,
                            },
                        ),
                    )
                }
            },
            (
                Analysis::CommentPositions { language, mut lhs_positions, mut rhs_positions },
                AnalysisReply::Comments { mut lhs, mut rhs },
            ) => {
                lhs_positions.append(&mut lhs);
                rhs_positions.append(&mut rhs);
                trace.push(Phase::Positions);
                Analysis::Finished(
                    Outcome::Positions(
                        TextDiffPositions {
                            file_format: FileFormat::SupportedLanguage(language),
                            lhs_positions,
                            rhs_positions,
                        },
                    ),
                )
            },
            (
                Analysis::CompareLines { file_format },
                AnalysisReply::LinePositions { lhs, rhs },
            ) => {
                trace.push(Phase::LineDiff);
                Analysis::Finished(
                    Outcome::Positions(
                        TextDiffPositions { file_format, lhs_positions: lhs, rhs_positions: rhs },
                    ),
                )
            },
            (unanswered, _) => unanswered,
        };
        proof {
            assert(trace@ =~= before + ended);
        }
        next
    }
}

/// The positions that a line matcher finds in two texts: those of the left text,
/// matched against the right one, and those of the right text, matched against
/// the left one.
pub open spec fn line_pair<D>(
    matcher: spec_fn(Seq<char>, Seq<char>) -> Seq<MatchedPos<D>>,
    texts: (Seq<char>, Seq<char>),
) -> (Seq<MatchedPos<D>>, Seq<MatchedPos<D>>) {
    (matcher(texts.0, texts.1), matcher(texts.1, texts.0))
}

/// What the program around an analysis answers, whatever is asked: one set of
/// parsers and matchers. Most go by a language, the left text and the right one.
#[verifier::reject_recursive_types(D)]
pub struct Answers<D> {
    /// Whether the grammar of a language loads.
    pub loaded: spec_fn(Seq<char>) -> bool,
    pub trees: spec_fn(Seq<char>, Seq<char>, Seq<char>) -> Result<(), usize>,
    pub syntax: spec_fn(Seq<char>, Seq<char>, Seq<char>) -> Result<(), usize>,
    pub syntax_changed: spec_fn(Seq<char>, Seq<char>, Seq<char>) -> bool,
    pub sections: spec_fn(Seq<char>, Seq<char>, Seq<char>) -> nat,
    /// Whether a section is matched within the limit.
    pub section_fits: spec_fn(Seq<char>, Seq<char>, Seq<char>, int) -> bool,
    /// Whether everything at once is matched within the limit.
    pub whole_fits: spec_fn(Seq<char>, Seq<char>, Seq<char>) -> bool,
    pub positions: spec_fn(Seq<char>, Seq<char>, Seq<char>) -> (
        Seq<MatchedPos<D>>,
        Seq<MatchedPos<D>>,
    ),
    /// The comments of a text in a language.
    pub comments: spec_fn(Seq<char>, Seq<char>) -> Seq<MatchedPos<D>>,
    /// The positions of a text whose lines are matched against another text.
    pub line_matcher: spec_fn(Seq<char>, Seq<char>) -> Seq<MatchedPos<D>>,
}

impl<D> Answers<D> {
    /// How many sections of two texts are left to match: none where the language
    /// is not known.
    pub open spec fn section_count(
        self,
        texts: (Seq<char>, Seq<char>),
        language: Option<Seq<char>>,
    ) -> nat {
        match language {
            Some(language) => (self.sections)(language, texts.0, texts.1),
            None => 0,
        }
    }

    /// The reply to what an analysis of two texts asks for.
    pub open spec fn reply(
        self,
        texts: (Seq<char>, Seq<char>),
        stage: AnalysisModel<D>,
    ) -> AnalysisReplyModel<D> {
        match stage {
            AnalysisModel::LoadGrammar { language } => AnalysisReplyModel::Grammar {
                loaded: (self.loaded)(language),
            },
            AnalysisModel::ParseTrees { language } => AnalysisReplyModel::Trees(
                (self.trees)(language, texts.0, texts.1),
            ),
            AnalysisModel::BuildSyntax { language } => AnalysisReplyModel::Syntax(
                (self.syntax)(language, texts.0, texts.1),
            ),
            AnalysisModel::CompareSyntax { language } => AnalysisReplyModel::SyntaxChanged(
                (self.syntax_changed)(language, texts.0, texts.1),
            ),
            AnalysisModel::MarkUnchanged { language } => AnalysisReplyModel::Sections(
                (self.sections)(language, texts.0, texts.1) as int,
            ),
            AnalysisModel::MatchWhole { language } => AnalysisReplyModel::Matched {
                within_limit: (self.whole_fits)(language, texts.0, texts.1),
            },
            AnalysisModel::MatchSection { language, section, .. } => AnalysisReplyModel::Matched {
                within_limit: (self.section_fits)(language, texts.0, texts.1, section),
            },
            AnalysisModel::FixSliders { .. } => AnalysisReplyModel::SlidersFixed,
            AnalysisModel::ChangePositions { language } => AnalysisReplyModel::Positions {
                lhs: (self.positions)(language, texts.0, texts.1).0,
                rhs: (self.positions)(language, texts.0, texts.1).1,
            },
            AnalysisModel::CommentPositions { language, .. } => AnalysisReplyModel::Comments {
                lhs: (self.comments)(language, texts.0),
                rhs: (self.comments)(language, texts.1),
            },
            _ => AnalysisReplyModel::LinePositions {
                lhs: line_pair(self.line_matcher, texts).0,
                rhs: line_pair(self.line_matcher, texts).1,
            },
        }
    }

    /// The positions that comparing lines finds.
    pub open spec fn line_outcome(
        self,
        texts: (Seq<char>, Seq<char>),
        file_format: FileFormatModel,
    ) -> OutcomeModel<D> {
        OutcomeModel::Positions(
            TextDiffModel {
                file_format,
                lhs_positions: line_pair(self.line_matcher, texts).0,
                rhs_positions: line_pair(self.line_matcher, texts).1,
            },
        )
    }

    /// The outcome where syntax cannot be compared.
    pub open spec fn text_outcome(
        self,
        texts: (Seq<char>, Seq<char>),
        rules: AnalysisRules,
        file_format: FileFormatModel,
    ) -> OutcomeModel<D> {
        if rules.check_only {
            OutcomeModel::TextOnly { file_format }
        } else {
            self.line_outcome(texts, file_format)
        }
    }

    /// The positions that comparing syntax finds, with those of comments at the
    /// end where they were left out.
    pub open spec fn syntax_outcome(
        self,
        texts: (Seq<char>, Seq<char>),
        rules: AnalysisRules,
        language: Seq<char>,
    ) -> OutcomeModel<D> {
        let (lhs, rhs) = (self.positions)(language, texts.0, texts.1);
        OutcomeModel::Positions(
            TextDiffModel {
                file_format: FileFormatModel::SupportedLanguage(language),
                lhs_positions: if rules.ignore_comments {
                    lhs + (self.comments)(language, texts.0)
                } else {
                    lhs
                },
                rhs_positions: if rules.ignore_comments {
                    rhs + (self.comments)(language, texts.1)
                } else {
                    rhs
                },
            },
        )
    }

    /// Whether all sections from one on are matched within the limit.
    pub open spec fn sections_fit(
        self,
        texts: (Seq<char>, Seq<char>),
        language: Seq<char>,
        from: int,
        count: int,
    ) -> bool {
        forall|section: int|
            from <= section < count ==> #[trigger] (self.section_fits)(
                language,
                texts.0,
                texts.1,
                section,
            )
    }

    /// Whether the syntax is matched within the limit.
    pub open spec fn match_fits(
        self,
        texts: (Seq<char>, Seq<char>),
        rules: AnalysisRules,
        language: Seq<char>,
    ) -> bool {
        if rules.keep_unchanged {
            (self.whole_fits)(language, texts.0, texts.1)
        } else {
            self.sections_fit(
                texts,
                language,
                0,
                (self.sections)(language, texts.0, texts.1) as int,
            )
        }
    }

    /// What comparing two texts comes to. Syntax is compared where the language
    /// is known, its grammar loads, the texts are small enough, they have few
    /// enough parse errors and the match stays within its limit. Else lines are.
    pub open spec fn outcome(
        self,
        texts: (Seq<char>, Seq<char>),
        rules: AnalysisRules,
        language: Option<Seq<char>>,
    ) -> OutcomeModel<D> {
        match language {
            None => self.text_outcome(texts, rules, FileFormatModel::PlainText),
            Some(language) => {
                let trees = (self.trees)(language, texts.0, texts.1);
                let syntax = (self.syntax)(language, texts.0, texts.1);
                if !(self.loaded)(language) {
                    self.text_outcome(texts, rules, FileFormatModel::PlainText)
                } else if trees is Err {
                    self.text_outcome(texts, rules, too_large(trees->Err_0))
                } else if syntax is Err {
                    self.text_outcome(texts, rules, too_many_errors(syntax->Err_0, language))
                } else if rules.check_only {
                    OutcomeModel::SyntaxOnly {
                        language,
                        changed: (self.syntax_changed)(language, texts.0, texts.1),
                    }
                } else if self.match_fits(texts, rules, language) {
                    self.syntax_outcome(texts, rules, language)
                } else {
                    self.line_outcome(texts, too_complex())
                }
            },
        }
    }

    /// Where an analysis of two texts stands after some replies.
    pub open spec fn run(
        self,
        texts: (Seq<char>, Seq<char>),
        rules: AnalysisRules,
        stage: AnalysisModel<D>,
        steps: nat,
    ) -> AnalysisModel<D>
        decreases steps,
    {
        if steps == 0 {
            stage
        } else {
            self.run(texts, rules, stage.next(rules, self.reply(texts, stage)), (steps - 1) as nat)
        }
    }

    /// What is still to come of an analysis that matches syntax.
    spec fn match_prospect(
        self,
        texts: (Seq<char>, Seq<char>),
        rules: AnalysisRules,
        language: Seq<char>,
        fits: bool,
    ) -> OutcomeModel<D> {
        if fits {
            self.syntax_outcome(texts, rules, language)
        } else {
            self.line_outcome(texts, too_complex())
        }
    }

    /// What is still to come of an analysis that builds syntax nodes.
    spec fn syntax_prospect(
        self,
        texts: (Seq<char>, Seq<char>),
        rules: AnalysisRules,
        language: Seq<char>,
    ) -> OutcomeModel<D> {
        let syntax = (self.syntax)(language, texts.0, texts.1);
        if syntax is Err {
            self.text_outcome(texts, rules, too_many_errors(syntax->Err_0, language))
        } else if rules.check_only {
            OutcomeModel::SyntaxOnly {
                language,
                changed: (self.syntax_changed)(language, texts.0, texts.1),
            }
        } else {
            self.match_prospect(texts, rules, language, self.match_fits(texts, rules, language))
        }
    }

    /// What is still to come of an analysis.
    spec fn prospect(
        self,
        texts: (Seq<char>, Seq<char>),
        rules: AnalysisRules,
        stage: AnalysisModel<D>,
    ) -> OutcomeModel<D> {
        match stage {
            AnalysisModel::LoadGrammar { language } => self.outcome(texts, rules, Some(language)),
            AnalysisModel::ParseTrees { language } => {
                let trees = (self.trees)(language, texts.0, texts.1);
                if trees is Err {
                    self.text_outcome(texts, rules, too_large(trees->Err_0))
                } else {
                    self.syntax_prospect(texts, rules, language)
                }
            },
            AnalysisModel::BuildSyntax { language } => self.syntax_prospect(
                texts,
                rules,
                language,
            ),
            AnalysisModel::CompareSyntax { language } => OutcomeModel::SyntaxOnly {
                language,
                changed: (self.syntax_changed)(language, texts.0, texts.1),
            },
            AnalysisModel::MarkUnchanged { language } => self.match_prospect(
                texts,
                rules,
                language,
                self.sections_fit(
                    texts,
                    language,
                    0,
                    (self.sections)(language, texts.0, texts.1) as int,
                ),
            ),
            AnalysisModel::MatchWhole { language } => self.match_prospect(
                texts,
                rules,
                language,
                (self.whole_fits)(language, texts.0, texts.1),
            ),
            AnalysisModel::MatchSection { language, section, count } => self.match_prospect(
                texts,
                rules,
                language,
                self.sections_fit(texts, language, section, count),
            ),
            AnalysisModel::FixSliders { language } => self.syntax_outcome(texts, rules, language),
            AnalysisModel::ChangePositions { language } => self.syntax_outcome(
                texts,
                rules,
                language,
            ),
            AnalysisModel::CommentPositions { language, lhs_positions, rhs_positions } =>
                OutcomeModel::Positions(
                TextDiffModel {
                    file_format: FileFormatModel::SupportedLanguage(language),
                    lhs_positions: lhs_positions + (self.comments)(language, texts.0),
                    rhs_positions: rhs_positions + (self.comments)(language, texts.1),
                },
            ),
            AnalysisModel::CompareLines { file_format } => self.line_outcome(texts, file_format),
            AnalysisModel::Finished(outcome) => outcome,
        }
    }

    /// How many replies an analysis still needs, at most.
    spec fn distance(self, texts: (Seq<char>, Seq<char>), stage: AnalysisModel<D>) -> int {
        match stage {
            AnalysisModel::LoadGrammar { language } => 7 + (self.sections)(
                language,
                texts.0,
                texts.1,
            ) as int,
            AnalysisModel::ParseTrees { language } => 6 + (self.sections)(
                language,
                texts.0,
                texts.1,
            ) as int,
            AnalysisModel::BuildSyntax { language } => 5 + (self.sections)(
                language,
                texts.0,
                texts.1,
            ) as int,
            AnalysisModel::CompareSyntax { .. } => 1,
            AnalysisModel::MarkUnchanged { language } => 4 + (self.sections)(
                language,
                texts.0,
                texts.1,
            ) as int,
            AnalysisModel::MatchWhole { .. } => 4,
            AnalysisModel::MatchSection { section, count, .. } => 3 + count - section,
            AnalysisModel::FixSliders { .. } => 3,
            AnalysisModel::ChangePositions { .. } => 2,
            AnalysisModel::CommentPositions { .. } => 1,
            AnalysisModel::CompareLines { .. } => 1,
            AnalysisModel::Finished(_) => 0,
        }
    }

    proof fn lemma_run(
        self,
        texts: (Seq<char>, Seq<char>),
        rules: AnalysisRules,
        stage: AnalysisModel<D>,
        steps: nat,
    )
        requires
            stage matches AnalysisModel::MatchSection { section, count, .. } ==> section < count,
            self.distance(texts, stage) <= steps,
        ensures
            self.run(texts, rules, stage, steps) == AnalysisModel::Finished(
                self.prospect(texts, rules, stage),
            ),
        decreases steps,
    {
        if steps > 0 {
            let next = stage.next(rules, self.reply(texts, stage));
            match stage {
                AnalysisModel::MatchSection { language, section, count } => {
                    assert(self.sections_fit(texts, language, section, count) <==> ((
                    self.section_fits)(language, texts.0, texts.1, section) && self.sections_fit(
                        texts,
                        language,
                        section + 1,
                        count,
                    )));
                },
                _ => {},
            }
            assert(self.prospect(texts, rules, next) == self.prospect(texts, rules, stage));
            assert(!(stage is Finished) ==> self.distance(texts, next) < self.distance(
                texts,
                stage,
            ));
            self.lemma_run(texts, rules, next, (steps - 1) as nat);
        }
    }

    /// An analysis that has ended stays as it is, however long it is kept up.
    pub(crate) proof fn lemma_run_finished(
        self,
        texts: (Seq<char>, Seq<char>),
        rules: AnalysisRules,
        outcome: OutcomeModel<D>,
        steps: nat,
    )
        ensures
            self.run(texts, rules, AnalysisModel::Finished(outcome), steps)
                == AnalysisModel::Finished(outcome),
        decreases steps,
    {
        if steps > 0 {
            self.lemma_run_finished(texts, rules, outcome, (steps - 1) as nat);
        }
    }

    /// However the parsers and matchers answer, an analysis ends after at most
    /// seven replies and one for each section, and it ends with the outcome that
    /// the answers come to. Where lines are compared, the left positions are those
    /// of the left text matched against the right one, and the right positions
    /// those of the right text matched against the left one. Where syntax is, they
    /// are those that matching it gives for each side, with the comments of that
    /// side behind them where comments were left out.
    pub proof fn law_analysis_ends(
        self,
        texts: (Seq<char>, Seq<char>),
        rules: AnalysisRules,
        language: Option<Seq<char>>,
        steps: nat,
    )
        requires
            steps >= 7 + self.section_count(texts, language),
        ensures
            self.run(texts, rules, AnalysisModel::start(language, rules), steps)
                == AnalysisModel::Finished(self.outcome(texts, rules, language)),
            self.outcome(texts, rules, language) matches OutcomeModel::Positions(found) ==> (
            !(found.file_format is SupportedLanguage) ==> {
                &&& found.lhs_positions == (self.line_matcher)(texts.0, texts.1)
                &&& found.rhs_positions == (self.line_matcher)(texts.1, texts.0)
            }),
            self.outcome(texts, rules, language) matches OutcomeModel::Positions(found) ==> (
            found.file_format matches FileFormatModel::SupportedLanguage(known) ==> {
                let (lhs, rhs) = (self.positions)(known, texts.0, texts.1);
                let no_comments = Seq::<MatchedPos<D>>::empty();
                let comments = |text: Seq<char>|
                    if rules.ignore_comments {
                        (self.comments)(known, text)
                    } else {
                        no_comments
                    };
                &&& language == Some(known)
                &&& found.lhs_positions == lhs + comments(texts.0)
                &&& found.rhs_positions == rhs + comments(texts.1)
            }),
    {
        self.lemma_run(texts, rules, AnalysisModel::start(language, rules), steps);
        if language is Some {
            let (lhs, rhs) = (self.positions)(language->Some_0, texts.0, texts.1);
            assert(lhs + Seq::empty() =~= lhs);
            assert(rhs + Seq::empty() =~= rhs);
        }
    }

    /// Matching stops at the first section that exceeds the limit: the sections
    /// after it are not asked for, and lines are compared in place of syntax.
    pub proof fn law_match_stops_at_limit(
        self,
        texts: (Seq<char>, Seq<char>),
        rules: AnalysisRules,
        language: Seq<char>,
        section: int,
        count: int,
    )
        requires
            !(self.section_fits)(language, texts.0, texts.1, section),
        ensures
            self.run(
                texts,
                rules,
                AnalysisModel::MatchSection { language, section, count },
                1,
            ) == (AnalysisModel::<D>::CompareLines { file_format: too_complex() }),
    {
        let stage = AnalysisModel::<D>::MatchSection { language, section, count };
        assert(self.run(texts, rules, stage, 1) == self.run(
            texts,
            rules,
            stage.next(rules, self.reply(texts, stage)),
            0,
        ));
    }
}

/// An analysis that has ended stays as it is, whatever is replied.
pub proof fn law_finished_stays<D>(
    outcome: OutcomeModel<D>,
    rules: AnalysisRules,
    reply: AnalysisReplyModel<D>,
)
    ensures
        AnalysisModel::Finished(outcome).next(rules, reply) == AnalysisModel::Finished(outcome),
        AnalysisModel::Finished(outcome).phases(rules, reply) == Seq::<Phase>::empty(),
{
}

/// Texts in no known language are compared by their lines, and texts whose grammar
/// does not load are treated as such texts are. A check of them ends at once.
pub proof fn law_no_grammar_means_lines<D>(language: Seq<char>, rules: AnalysisRules)
    ensures
        AnalysisModel::<D>::start(Some(language), rules) == (AnalysisModel::<D>::LoadGrammar {
            language,
        }),
        (AnalysisModel::<D>::LoadGrammar { language }).next(
            rules,
            AnalysisReplyModel::Grammar { loaded: false },
        ) == AnalysisModel::<D>::start(None, rules),
        !rules.check_only ==> AnalysisModel::<D>::start(None, rules) == (
        AnalysisModel::<D>::CompareLines { file_format: FileFormatModel::PlainText }),
        rules.check_only ==> AnalysisModel::<D>::start(None, rules)
            == AnalysisModel::<D>::Finished(
            OutcomeModel::TextOnly { file_format: FileFormatModel::PlainText },
        ),
{
}

/// Texts over a limit are compared by their lines, and the format says which limit
/// that was. A check of them ends there.
pub proof fn law_limits_mean_lines<D>(
    language: Seq<char>,
    rules: AnalysisRules,
    num_bytes: usize,
    error_count: usize,
    section: int,
    count: int,
)
    ensures
        ({
            let reply = AnalysisReplyModel::<D>::Trees(Err(num_bytes));
            let after = (AnalysisModel::<D>::ParseTrees { language }).next(rules, reply);
            let file_format = FileFormatModel::TextFallback {
                reason: crate::format::human_size(num_bytes, 1) + " exceeded DFT_BYTE_LIMIT"@,
            };
            if rules.check_only {
                after == AnalysisModel::<D>::Finished(OutcomeModel::TextOnly { file_format })
            } else {
                after == (AnalysisModel::<D>::CompareLines { file_format })
            }
        }),
        ({
            let reply = AnalysisReplyModel::<D>::Syntax(Err(error_count));
            let after = (AnalysisModel::<D>::BuildSyntax { language }).next(rules, reply);
            let file_format = FileFormatModel::TextFallback {
                reason: crate::text::decimal(error_count as nat) + " "@ + language + (
                if error_count == 1 {
                    " parse error, exceeded DFT_PARSE_ERROR_LIMIT"@
                } else {
                    " parse errors, exceeded DFT_PARSE_ERROR_LIMIT"@
                }),
            };
            if rules.check_only {
                after == AnalysisModel::<D>::Finished(OutcomeModel::TextOnly { file_format })
            } else {
                after == (AnalysisModel::<D>::CompareLines { file_format })
            }
        }),
        ({
            let reply = AnalysisReplyModel::<D>::Matched { within_limit: false };
            let lines = AnalysisModel::<D>::CompareLines {
                file_format: FileFormatModel::TextFallback {
                    reason: "exceeded DFT_GRAPH_LIMIT"@,
                },
            };
            &&& (AnalysisModel::<D>::MatchSection { language, section, count }).next(rules, reply)
                == lines
            &&& (AnalysisModel::<D>::MatchWhole { language }).next(rules, reply) == lines
        }),
{
    crate::format::law_reasons_worded(
        crate::format::human_size(num_bytes, 1),
        error_count,
        language,
    );
    if error_count == 1 {
        reveal_strlit(" ");
        reveal_strlit("1 ");
        assert(crate::text::decimal(1) =~= seq!['1']);
        assert(crate::text::decimal(1) + " "@ =~= "1 "@);
    }
}

/// The positions that are found stay as they are, each on its own side, with the
/// comments of a side behind the positions of that side. Lines keep the format
/// under which they were compared, and syntax has that of its language.
pub proof fn law_positions_stay_on_their_side<D>(
    language: Seq<char>,
    file_format: FileFormatModel,
    rules: AnalysisRules,
    lhs: Seq<MatchedPos<D>>,
    rhs: Seq<MatchedPos<D>>,
    lhs_comments: Seq<MatchedPos<D>>,
    rhs_comments: Seq<MatchedPos<D>>,
)
    ensures
        (AnalysisModel::<D>::CompareLines { file_format }).next(
            rules,
            AnalysisReplyModel::LinePositions { lhs, rhs },
        ) == AnalysisModel::<D>::Finished(
            OutcomeModel::Positions(
                TextDiffModel { file_format, lhs_positions: lhs, rhs_positions: rhs },
            ),
        ),
        !rules.ignore_comments ==> (AnalysisModel::<D>::ChangePositions { language }).next(
            rules,
            AnalysisReplyModel::Positions { lhs, rhs },
        ) == AnalysisModel::<D>::Finished(
            OutcomeModel::Positions(
                TextDiffModel {
                    file_format: FileFormatModel::SupportedLanguage(language),
                    lhs_positions: lhs,
                    rhs_positions: rhs,
                },
            ),
        ),
        rules.ignore_comments ==> (AnalysisModel::<D>::ChangePositions { language }).next(
            rules,
            AnalysisReplyModel::Positions { lhs, rhs },
        ) == (AnalysisModel::<D>::CommentPositions {
            language,
            lhs_positions: lhs,
            rhs_positions: rhs,
        }),
        (AnalysisModel::<D>::CommentPositions { language, lhs_positions: lhs, rhs_positions: rhs })
            .next(
            rules,
            AnalysisReplyModel::Comments { lhs: lhs_comments, rhs: rhs_comments },
        ) == AnalysisModel::<D>::Finished(
            OutcomeModel::Positions(
                TextDiffModel {
                    file_format: FileFormatModel::SupportedLanguage(language),
                    lhs_positions: lhs + lhs_comments,
                    rhs_positions: rhs + rhs_comments,
                },
            ),
        ),
{
}

/// Syntax within its limits is parsed, built and matched in the language that was
/// guessed, section by section with none left out, unless everything is matched at
/// once or only a check is asked for. A check tells what comparing the syntax told.
pub proof fn law_syntax_matched_to_the_end<D>(
    language: Seq<char>,
    rules: AnalysisRules,
    section: int,
    count: int,
    changed: bool,
)
    ensures
        (AnalysisModel::<D>::LoadGrammar { language }).next(
            rules,
            AnalysisReplyModel::Grammar { loaded: true },
        ) == (AnalysisModel::<D>::ParseTrees { language }),
        (AnalysisModel::<D>::ParseTrees { language }).next(
            rules,
            AnalysisReplyModel::Trees(Ok(())),
        ) == (AnalysisModel::<D>::BuildSyntax { language }),
        ({
            let built = (AnalysisModel::<D>::BuildSyntax { language }).next(
                rules,
                AnalysisReplyModel::Syntax(Ok(())),
            );
            &&& rules.check_only ==> built == (AnalysisModel::<D>::CompareSyntax { language })
            &&& !rules.check_only && rules.keep_unchanged ==> built == (
            AnalysisModel::<D>::MatchWhole { language })
            &&& !rules.check_only && !rules.keep_unchanged ==> built == (
            AnalysisModel::<D>::MarkUnchanged { language })
        }),
        (AnalysisModel::<D>::CompareSyntax { language }).next(
            rules,
            AnalysisReplyModel::SyntaxChanged(changed),
        ) == AnalysisModel::<D>::Finished(OutcomeModel::SyntaxOnly { language, changed }),
        count > 0 ==> (AnalysisModel::<D>::MarkUnchanged { language }).next(
            rules,
            AnalysisReplyModel::Sections(count),
        ) == (AnalysisModel::<D>::MatchSection { language, section: 0, count }),
        (AnalysisModel::<D>::MarkUnchanged { language }).next(
            rules,
            AnalysisReplyModel::Sections(0),
        ) == (AnalysisModel::<D>::FixSliders { language }),
        section + 1 < count ==> (AnalysisModel::<D>::MatchSection { language, section, count })
            .next(rules, AnalysisReplyModel::Matched { within_limit: true }) == (
        AnalysisModel::<D>::MatchSection { language, section: section + 1, count }),
        section + 1 >= count ==> (AnalysisModel::<D>::MatchSection { language, section, count })
            .next(rules, AnalysisReplyModel::Matched { within_limit: true }) == (
        AnalysisModel::<D>::FixSliders { language }),
        (AnalysisModel::<D>::MatchWhole { language }).next(
            rules,
            AnalysisReplyModel::Matched { within_limit: true },
        ) == (AnalysisModel::<D>::FixSliders { language }),
        (AnalysisModel::<D>::FixSliders { language }).next(
            rules,
            AnalysisReplyModel::SlidersFixed,
        ) == (AnalysisModel::<D>::ChangePositions { language }),
{
}

/// A reply to something that was not asked changes nothing and ends no phase.
pub proof fn law_unasked_reply_ignored<D>(
    stage: AnalysisModel<D>,
    rules: AnalysisRules,
    reply: AnalysisReplyModel<D>,
)
    requires
        stage is LoadGrammar ==> !(reply is Grammar),
        stage is ParseTrees ==> !(reply is Trees),
        stage is BuildSyntax ==> !(reply is Syntax),
        stage is CompareSyntax ==> !(reply is SyntaxChanged),
        stage is MarkUnchanged ==> !(reply is Sections),
        stage is MatchWhole ==> !(reply is Matched),
        stage is MatchSection ==> !(reply is Matched),
        stage is FixSliders ==> !(reply is SlidersFixed),
        stage is ChangePositions ==> !(reply is Positions),
        stage is CommentPositions ==> !(reply is Comments),
        stage is CompareLines ==> !(reply is LinePositions),
    ensures
        stage.next(rules, reply) == stage,
        stage.phases(rules, reply) == Seq::<Phase>::empty(),
{
}

/// Which phases are over after a reply. Loading, parsing, building, sliders and
/// lines end a phase each. Marking what is unchanged ends where matching begins,
/// matching ends with its last section or at its limit, and positions end when no
/// more are asked for.
pub proof fn law_phases_end_with_their_work<D>(
    stage: AnalysisModel<D>,
    rules: AnalysisRules,
    reply: AnalysisReplyModel<D>,
)
    ensures
        AnalysisModel::<D>::start_phases(None) == seq![Phase::LanguageConfig],
        forall|language: Seq<char>| #[trigger]
            AnalysisModel::<D>::start_phases(Some(language)) == Seq::<Phase>::empty(),
        stage is LoadGrammar && reply is Grammar ==> stage.phases(rules, reply) == seq![
            Phase::LanguageConfig,
        ],
        stage is ParseTrees && reply is Trees ==> stage.phases(rules, reply) == seq![Phase::Parse],
        stage is BuildSyntax && reply is Syntax ==> stage.phases(rules, reply) == (
        if stage.next(rules, reply) is MatchWhole {
            seq![Phase::Syntax, Phase::Unchanged]
        } else {
            seq![Phase::Syntax]
        }),
        stage is CompareSyntax && reply is SyntaxChanged ==> stage.phases(rules, reply) == Seq::<
            Phase,
        >::empty(),
        stage is MarkUnchanged && reply is Sections ==> stage.phases(rules, reply) == (
        if stage.next(rules, reply) is MatchSection {
            seq![Phase::Unchanged]
        } else {
            seq![Phase::Unchanged, Phase::Dijkstra]
        }),
        (stage is MatchSection || stage is MatchWhole) && reply is Matched ==> stage.phases(
            rules,
            reply,
        ) == (if stage.next(rules, reply) is MatchSection {
            Seq::empty()
        } else {
            seq![Phase::Dijkstra]
        }),
        stage is FixSliders && reply is SlidersFixed ==> stage.phases(rules, reply) == seq![
            Phase::Sliders,
        ],
        stage is ChangePositions && reply is Positions ==> stage.phases(rules, reply) == (
        if stage.next(rules, reply) is CommentPositions {
            Seq::empty()
        } else {
            seq![Phase::Positions]
        }),
        stage is CommentPositions && reply is Comments ==> stage.phases(rules, reply) == seq![
            Phase::Positions,
        ],
        stage is CompareLines && reply is LinePositions ==> stage.phases(rules, reply) == seq![
            Phase::LineDiff,
        ],
{
}

/// What is found is told field by field, each side on its own side.
pub proof fn law_found_view<D>(found: TextDiffPositions<D>, outcome: Outcome<D>)
    ensures
        found@.file_format == found.file_format@,
        found@.lhs_positions == found.lhs_positions@,
        found@.rhs_positions == found.rhs_positions@,
        outcome matches Outcome::Positions(ended) ==> outcome@ == OutcomeModel::Positions(ended@),
        outcome matches Outcome::TextOnly { file_format } ==> outcome@ == (
        OutcomeModel::<D>::TextOnly { file_format: file_format@ }),
        outcome matches Outcome::SyntaxOnly { language, changed } ==> outcome@ == (
        OutcomeModel::<D>::SyntaxOnly { language: language.name@, changed }),
{
}

/// A reply is told as it was given, each side on its own side.
pub proof fn law_reply_view<D>(reply: AnalysisReply<D>)
    ensures
        reply matches AnalysisReply::Grammar { loaded } ==> reply@ == (
        AnalysisReplyModel::<D>::Grammar { loaded }),
        reply matches AnalysisReply::Trees(parsed) ==> reply@ == AnalysisReplyModel::<D>::Trees(
            parsed,
        ),
        reply matches AnalysisReply::Syntax(built) ==> reply@ == AnalysisReplyModel::<D>::Syntax(
            built,
        ),
        reply matches AnalysisReply::SyntaxChanged(changed) ==> reply@ == AnalysisReplyModel::<
            D,
        >::SyntaxChanged(changed),
        reply matches AnalysisReply::Sections(count) ==> reply@ == AnalysisReplyModel::<
            D,
        >::Sections(count as int),
        reply matches AnalysisReply::Matched { within_limit } ==> reply@ == (
        AnalysisReplyModel::<D>::Matched { within_limit }),
        reply is SlidersFixed ==> reply@ is SlidersFixed,
        reply matches AnalysisReply::Positions { lhs, rhs } ==> reply@ == (
        AnalysisReplyModel::Positions { lhs: lhs@, rhs: rhs@ }),
        reply matches AnalysisReply::Comments { lhs, rhs } ==> reply@ == (
        AnalysisReplyModel::Comments { lhs: lhs@, rhs: rhs@ }),
        reply matches AnalysisReply::LinePositions { lhs, rhs } ==> reply@ == (
        AnalysisReplyModel::LinePositions { lhs: lhs@, rhs: rhs@ }),
{
}

/// What an analysis asks for is told as it is asked, in the language it is asked
/// for.
pub proof fn law_analysis_view<D>(analysis: Analysis<D>)
    ensures
        analysis matches Analysis::LoadGrammar { language } ==> analysis@ == (
        AnalysisModel::<D>::LoadGrammar { language: language.name@ }),
        analysis matches Analysis::ParseTrees { language } ==> analysis@ == (
        AnalysisModel::<D>::ParseTrees { language: language.name@ }),
        analysis matches Analysis::BuildSyntax { language } ==> analysis@ == (
        AnalysisModel::<D>::BuildSyntax { language: language.name@ }),
        analysis matches Analysis::CompareSyntax { language } ==> analysis@ == (
        AnalysisModel::<D>::CompareSyntax { language: language.name@ }),
        analysis matches Analysis::MarkUnchanged { language } ==> analysis@ == (
        AnalysisModel::<D>::MarkUnchanged { language: language.name@ }),
        analysis matches Analysis::MatchWhole { language } ==> analysis@ == (
        AnalysisModel::<D>::MatchWhole { language: language.name@ }),
        analysis matches Analysis::MatchSection { language, section, count } ==> analysis@ == (
        AnalysisModel::<D>::MatchSection {
            language: language.name@,
            section: section as int,
            count: count as int,
        }),
        analysis matches Analysis::FixSliders { language } ==> analysis@ == (
        AnalysisModel::<D>::FixSliders { language: language.name@ }),
        analysis matches Analysis::ChangePositions { language } ==> analysis@ == (
        AnalysisModel::<D>::ChangePositions { language: language.name@ }),
        analysis matches Analysis::CommentPositions { language, lhs_positions, rhs_positions }
            ==> analysis@ == (AnalysisModel::CommentPositions {
            language: language.name@,
            lhs_positions: lhs_positions@,
            rhs_positions: rhs_positions@,
        }),
        analysis matches Analysis::CompareLines { file_format } ==> analysis@ == (
        AnalysisModel::<D>::CompareLines { file_format: file_format@ }),
        analysis matches Analysis::Finished(outcome) ==> analysis@ == AnalysisModel::Finished(
            outcome@,
        ),
{
}

} // verus!
