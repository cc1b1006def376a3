//! A semantic diff of two versions of a file, one step at a time.
//!
//! A [`SemanticDiff`] says what it needs next. The program around it does that
//! and hands back a reply, until the result is there.

use std::collections::HashSet;
use vstd::prelude::*;

use crate::analysis::{
    text_diff_positions, Analysis, AnalysisModel, AnalysisReply, AnalysisReplyModel, Answers,
    Outcome, OutcomeModel, TextDiffModel, TextDiffPositions,
};
use crate::chunks::AlignedLine;
use crate::content::{prepare_sources, DiffInput, FileKindModel, ProbableFileKind};
use crate::format::{file_format_for_language, FileFormat, FileFormatModel, Language};
use crate::options::{semantic_diff_options, DiffOptions, DiffRequest, FileArgument};
use crate::semantic::{
    text_positions_to_semantic, DiffStatus, SemanticDiffModel, SemanticDiffResult,
};
use crate::text::split_lines;
use crate::timing::Phase;

verus! {

/// What a semantic diff needs next.
pub enum SemanticStage<D> {
    /// Find whether the bytes of either side are text.
    GuessContent,
    /// Guess the language by the displayed path and
    /// [`guess_source`](crate::content::guess_source).
    GuessLanguage { lhs_src: String, rhs_src: String },
    /// Do what the comparison of the two texts asks for.
    Analyse { lhs_src: String, rhs_src: String, analysis: Analysis<D> },
    /// Name the format of a file that needs no comparison.
    NameFormat { status: DiffStatus, file_format: FileFormat },
    /// Name the format under which the texts were compared.
    NamePositions { lhs_src: String, rhs_src: String, found: TextDiffPositions<D> },
    /// Find the lines with a change, on both sides.
    FindNovelLines {
        lhs_src: String,
        rhs_src: String,
        found: TextDiffPositions<D>,
        format_name: String,
    },
    /// Align the lines of both sides in rows.
    AlignLines {
        lhs_lines: Vec<String>,
        rhs_lines: Vec<String>,
        found: TextDiffPositions<D>,
        format_name: String,
        lhs_novel: HashSet<u32>,
        rhs_novel: HashSet<u32>,
    },
    /// Nothing more.
    Finished(SemanticDiffResult),
}

/// What came of what a semantic diff asked for.
pub enum SemanticReply<D> {
    Content { lhs_kind: ProbableFileKind, rhs_kind: ProbableFileKind },
    Language(Option<Language>),
    Analysis(AnalysisReply<D>),
    FormatName(String),
    NovelLines { lhs_novel: HashSet<u32>, rhs_novel: HashSet<u32> },
    Alignment(Vec<AlignedLine>),
}

/// A semantic diff under way, with the phases that are over.
pub struct SemanticDiff<'a, D> {
    pub input: DiffInput<'a>,
    pub trace: Vec<Phase>,
    pub stage: SemanticStage<D>,
}

/// A [`SemanticStage`] with its texts and lists as sequences.
pub enum SemanticStageModel<D> {
    GuessContent,
    GuessLanguage { lhs_src: Seq<char>, rhs_src: Seq<char> },
    Analyse { lhs_src: Seq<char>, rhs_src: Seq<char>, analysis: AnalysisModel<D> },
    NameFormat { status: DiffStatus, file_format: FileFormatModel },
    NamePositions { lhs_src: Seq<char>, rhs_src: Seq<char>, found: TextDiffModel<D> },
    FindNovelLines {
        lhs_src: Seq<char>,
        rhs_src: Seq<char>,
        found: TextDiffModel<D>,
        format_name: Seq<char>,
    },
    AlignLines {
        lhs_lines: Seq<Seq<char>>,
        rhs_lines: Seq<Seq<char>>,
        found: TextDiffModel<D>,
        format_name: Seq<char>,
        lhs_novel: Set<u32>,
        rhs_novel: Set<u32>,
    },
    Finished(SemanticDiffModel),
}

/// A [`SemanticReply`] with its texts and lists as sequences.
pub enum SemanticReplyModel<D> {
    Content { lhs_kind: FileKindModel, rhs_kind: FileKindModel },
    Language(Option<Seq<char>>),
    Analysis(AnalysisReplyModel<D>),
    FormatName(Seq<char>),
    NovelLines { lhs_novel: Set<u32>, rhs_novel: Set<u32> },
    Alignment(Seq<AlignedLine>),
}

impl<D> View for SemanticStage<D> {
    type V = SemanticStageModel<D>;

    open spec fn view(&self) -> SemanticStageModel<D> {
        match *self {
            SemanticStage::GuessContent => SemanticStageModel::GuessContent,
            SemanticStage::GuessLanguage { lhs_src, rhs_src } => SemanticStageModel::GuessLanguage {
                lhs_src: lhs_src@,
                rhs_src: rhs_src@,
            },
            SemanticStage::Analyse { lhs_src, rhs_src, analysis } => SemanticStageModel::Analyse {
                lhs_src: lhs_src@,
                rhs_src: rhs_src@,
                analysis: analysis@,
            },
            SemanticStage::NameFormat { status, file_format } => SemanticStageModel::NameFormat {
                status,
                file_format: file_format@,
            },
            SemanticStage::NamePositions { lhs_src, rhs_src, found } =>
                SemanticStageModel::NamePositions {
                lhs_src: lhs_src@,
                rhs_src: rhs_src@,
                found: found@,
            },
            SemanticStage::FindNovelLines { lhs_src, rhs_src, found, format_name } =>
                SemanticStageModel::FindNovelLines {
                lhs_src: lhs_src@,
                rhs_src: rhs_src@,
                found: found@,
                format_name: format_name@,
            },
            SemanticStage::AlignLines {
                lhs_lines,
                rhs_lines,
                found,
                format_name,
                lhs_novel,
                rhs_novel,
            } => SemanticStageModel::AlignLines {
                lhs_lines: crate::text::texts(lhs_lines@),
                rhs_lines: crate::text::texts(rhs_lines@),
                found: found@,
                format_name: format_name@,
                lhs_novel: lhs_novel@,
                rhs_novel: rhs_novel@,
            },
            SemanticStage::Finished(result) => SemanticStageModel::Finished(result@),
        }
    }
}

impl<D> View for SemanticReply<D> {
    type V = SemanticReplyModel<D>;

    open spec fn view(&self) -> SemanticReplyModel<D> {
        match *self {
            SemanticReply::Content { lhs_kind, rhs_kind } => SemanticReplyModel::Content {
                lhs_kind: lhs_kind@,
                rhs_kind: rhs_kind@,
            },
            SemanticReply::Language(language) => SemanticReplyModel::Language(
                crate::format::optional_language(language),
            ),
            SemanticReply::Analysis(reply) => SemanticReplyModel::Analysis(reply@),
            SemanticReply::FormatName(name) => SemanticReplyModel::FormatName(name@),
            SemanticReply::NovelLines { lhs_novel, rhs_novel } => SemanticReplyModel::NovelLines {
                lhs_novel: lhs_novel@,
                rhs_novel: rhs_novel@,
            },
            SemanticReply::Alignment(rows) => SemanticReplyModel::Alignment(rows@),
        }
    }
}

/// The result for a file that needs no comparison.
pub open spec fn bare_result(status: DiffStatus, format_name: Seq<char>) -> SemanticDiffModel {
    SemanticDiffModel {
        status,
        language: format_name,
        line_fallback_reason: None,
        chunks: Seq::empty(),
        aligned_lines: Seq::empty(),
    }
}

/// What became of a file, where the two sides need no comparison to tell: one
/// side is missing, or both have the same text.
pub open spec fn plain_status(
    lhs_path: FileArgument,
    rhs_path: FileArgument,
    lhs_src: Seq<char>,
    rhs_src: Seq<char>,
) -> Option<DiffStatus> {
    if lhs_path is DevNull && !(rhs_path is DevNull) {
        Some(DiffStatus::Created)
    } else if rhs_path is DevNull && !(lhs_path is DevNull) {
        Some(DiffStatus::Deleted)
    } else if lhs_src == rhs_src {
        Some(DiffStatus::Unchanged)
    } else {
        None
    }
}

/// The phase that ends with a file that needs no comparison.
pub open spec fn plain_phase(status: DiffStatus) -> Phase {
    match status {
        DiffStatus::Created => Phase::Created,
        DiffStatus::Deleted => Phase::Deleted,
        _ => Phase::UnchangedBytes,
    }
}

impl<D> SemanticStageModel<D> {
    /// How a diff goes on once the content of both sides is known.
    pub open spec fn after_content(
        lhs: FileKindModel,
        rhs: FileKindModel,
        options: DiffOptions,
    ) -> Self {
        match crate::content::compared_texts(lhs, rhs, options.strip_cr) {
            Some(texts) => SemanticStageModel::GuessLanguage {
                lhs_src: texts.0,
                rhs_src: texts.1,
            },
            None => SemanticStageModel::NameFormat {
                status: DiffStatus::Binary,
                file_format: FileFormatModel::Binary,
            },
        }
    }

    /// How a diff goes on when the comparison of the texts has come to a stage.
    pub open spec fn with_analysis(
        lhs_src: Seq<char>,
        rhs_src: Seq<char>,
        analysis: AnalysisModel<D>,
    ) -> Self {
        match analysis {
            AnalysisModel::Finished(OutcomeModel::Positions(found)) =>
                SemanticStageModel::NamePositions { lhs_src, rhs_src, found },
            _ => SemanticStageModel::Analyse { lhs_src, rhs_src, analysis },
        }
    }

    /// How a diff goes on once the language is guessed.
    pub open spec fn after_language<'a>(
        input: DiffInput<'a>,
        lhs_src: Seq<char>,
        rhs_src: Seq<char>,
        language: Option<Seq<char>>,
    ) -> Self {
        match plain_status(input.lhs_path, input.rhs_path, lhs_src, rhs_src) {
            Some(status) => SemanticStageModel::NameFormat {
                status,
                file_format: FileFormatModel::of_language(language),
            },
            None => Self::with_analysis(
                lhs_src,
                rhs_src,
                AnalysisModel::start(language, input.rules(false)),
            ),
        }
    }

    /// How a diff goes on once the lines with a change are known. Where there are
    /// none, nothing has to be aligned.
    pub open spec fn after_novel_lines(
        lhs_src: Seq<char>,
        rhs_src: Seq<char>,
        found: TextDiffModel<D>,
        format_name: Seq<char>,
        lhs_novel: Set<u32>,
        rhs_novel: Set<u32>,
    ) -> Self {
        if lhs_novel.is_empty() && rhs_novel.is_empty() {
            SemanticStageModel::Finished(
                crate::semantic::semantic_result(
                    found.file_format,
                    format_name,
                    found.lhs_positions,
                    found.rhs_positions,
                    lhs_novel,
                    rhs_novel,
                    Seq::empty(),
                ),
            )
        } else {
            SemanticStageModel::AlignLines {
                lhs_lines: crate::text::lines_of(lhs_src),
                rhs_lines: crate::text::lines_of(rhs_src),
                found,
                format_name,
                lhs_novel,
                rhs_novel,
            }
        }
    }

    /// How a diff goes on after a reply. A reply to something that was not asked
    /// changes nothing.
    pub open spec fn next<'a>(self, input: DiffInput<'a>, reply: SemanticReplyModel<D>) -> Self {
        match (self, reply) {
            (
                SemanticStageModel::GuessContent,
                SemanticReplyModel::Content { lhs_kind, rhs_kind },
            ) => Self::after_content(lhs_kind, rhs_kind, input.options),
            (
                SemanticStageModel::GuessLanguage { lhs_src, rhs_src },
                SemanticReplyModel::Language(language),
            ) => Self::after_language(input, lhs_src, rhs_src, language),
            (
                SemanticStageModel::Analyse { lhs_src, rhs_src, analysis },
                SemanticReplyModel::Analysis(reply),
            ) => Self::with_analysis(lhs_src, rhs_src, analysis.next(input.rules(false), reply)),
            (
                SemanticStageModel::NameFormat { status, .. },
                SemanticReplyModel::FormatName(name),
            ) => SemanticStageModel::Finished(bare_result(status, name)),
            (
                SemanticStageModel::NamePositions { lhs_src, rhs_src, found },
                SemanticReplyModel::FormatName(name),
            ) => SemanticStageModel::FindNovelLines { lhs_src, rhs_src, found, format_name: name },
            (
                SemanticStageModel::FindNovelLines { lhs_src, rhs_src, found, format_name },
                SemanticReplyModel::NovelLines { lhs_novel, rhs_novel },
            ) => Self::after_novel_lines(
                lhs_src,
                rhs_src,
                found,
                format_name,
                lhs_novel,
                rhs_novel,
            ),
            (
                SemanticStageModel::AlignLines { found, format_name, lhs_novel, rhs_novel, .. },
                SemanticReplyModel::Alignment(rows),
            ) => SemanticStageModel::Finished(
                crate::semantic::semantic_result(
                    found.file_format,
                    format_name,
                    found.lhs_positions,
                    found.rhs_positions,
                    lhs_novel,
                    rhs_novel,
                    rows,
                ),
            ),
            _ => self,
        }
    }

    /// The phases that a guess of the language ends.
    pub open spec fn language_phases<'a>(
        input: DiffInput<'a>,
        lhs_src: Seq<char>,
        rhs_src: Seq<char>,
        language: Option<Seq<char>>,
    ) -> Seq<Phase> {
        seq![Phase::GuessLanguage] + match plain_status(
            input.lhs_path,
            input.rhs_path,
            lhs_src,
            rhs_src,
        ) {
            Some(status) => seq![plain_phase(status)],
            None => AnalysisModel::<D>::start_phases(language),
        }
    }

    /// The phases that a reply ends.
    pub open spec fn phases<'a>(self, input: DiffInput<'a>, reply: SemanticReplyModel<D>) -> Seq<
        Phase,
    > {
        match (self, reply) {
            (
                SemanticStageModel::GuessLanguage { lhs_src, rhs_src },
                SemanticReplyModel::Language(language),
            ) => Self::language_phases(input, lhs_src, rhs_src, language),
            (
                SemanticStageModel::Analyse { analysis, .. },
                SemanticReplyModel::Analysis(reply),
            ) => analysis.phases(input.rules(false), reply),
            (
                SemanticStageModel::FindNovelLines { .. },
                SemanticReplyModel::NovelLines { lhs_novel, rhs_novel },
            ) => if lhs_novel.is_empty() && rhs_novel.is_empty() {
                seq![Phase::SemanticConvert]
            } else {
                Seq::empty()
            },
            (
                SemanticStageModel::AlignLines { .. },
                SemanticReplyModel::Alignment(_),
            ) => seq![Phase::SemanticConvert],
            _ => Seq::empty(),
        }
    }
}

/// Begins a semantic diff. `defaults` are the options of a diff that was asked
/// for nothing special, `limit_text` is the value of
/// [`SEMANTIC_PARSE_ERROR_LIMIT_ENV`](crate::options::SEMANTIC_PARSE_ERROR_LIMIT_ENV)
/// where it is set, and `keep_unchanged` asks to match also what is plainly
/// unchanged.
pub fn diff_bytes_semantic<'a, D>(
    request: DiffRequest<'a>,
    defaults: DiffOptions,
    limit_text: Option<&str>,
    keep_unchanged: bool,
) -> (r: SemanticDiff<'a, D>)
    ensures
        r.input == DiffInput::of_request(
            request,
            crate::options::semantic_options(
                defaults,
                match limit_text {
                    Some(text) => Some(text@),
                    None => None,
                },
            ),
            keep_unchanged,
        ),
        r.stage@ == SemanticStageModel::<D>::GuessContent,
        r.trace@ == Seq::<Phase>::empty(),
{
    let options = semantic_diff_options(defaults, limit_text);
    SemanticDiff {
        input: DiffInput::new(request, options, keep_unchanged),
        trace: Vec::new(),
        stage: SemanticStage::GuessContent,
    }
}

/// Goes on once the content of both sides is known: a file with a binary side is
/// not compared.
pub fn diff_bytes_semantic_impl<D>(
    lhs: ProbableFileKind,
    rhs: ProbableFileKind,
    options: &DiffOptions,
) -> (r: SemanticStage<D>)
    ensures
        r@ == SemanticStageModel::<D>::after_content(lhs@, rhs@, *options),
{
    match prepare_sources(lhs, rhs, options.strip_cr) {
        None => SemanticStage::NameFormat {
            status: DiffStatus::Binary,
            file_format: FileFormat::Binary,
        },
        Some((lhs_src, rhs_src)) => SemanticStage::GuessLanguage { lhs_src, rhs_src },
    }
}

fn with_analysis<D>(lhs_src: String, rhs_src: String, analysis: Analysis<D>) -> (r: SemanticStage<
    D,
>)
    ensures
        r@ == SemanticStageModel::<D>::with_analysis(lhs_src@, rhs_src@, analysis@),
{
    match analysis {
        Analysis::Finished(Outcome::Positions(found)) => SemanticStage::NamePositions {
            lhs_src,
            rhs_src,
            found,
        },
        analysis => SemanticStage::Analyse { lhs_src, rhs_src, analysis },
    }
}

/// Goes on once the language is guessed. Files that were added or deleted, and
/// files whose text is the same, are not compared.
pub fn diff_file_content_semantic<'a, D>(
    input: &DiffInput<'a>,
    lhs_src: String,
    rhs_src: String,
    language: Option<Language>,
    trace: &mut Vec<Phase>,
) -> (r: SemanticStage<D>)
    ensures
        r@ == SemanticStageModel::<D>::after_language(
            *input,
            lhs_src@,
            rhs_src@,
            crate::format::optional_language(language),
        ),
        final(trace)@ == old(trace)@ + SemanticStageModel::<D>::language_phases(
            *input,
            lhs_src@,
            rhs_src@,
            crate::format::optional_language(language),
        ),
{
    let ghost before = trace@;
    let ghost ended = SemanticStageModel::<D>::language_phases(
        *input,
        lhs_src@,
        rhs_src@,
        crate::format::optional_language(language),
    );
    trace.push(Phase::GuessLanguage);
    let lhs_is_dev_null = match input.lhs_path {
        FileArgument::DevNull => true,
        FileArgument::NamedPath(_) => false,
    };
    let rhs_is_dev_null = match input.rhs_path {
        FileArgument::DevNull => true,
        FileArgument::NamedPath(_) => false,
    };
    let status: Option<DiffStatus> = if lhs_is_dev_null && !rhs_is_dev_null {
        trace.push(Phase::Created);
        Some(DiffStatus::Created)
    } else if rhs_is_dev_null && !lhs_is_dev_null {
        trace.push(Phase::Deleted);
        Some(DiffStatus::Deleted)
    } else if lhs_src == rhs_src {
        trace.push(Phase::UnchangedBytes);
        Some(DiffStatus::Unchanged)
    } else {
        None
    };
    match status {
        Some(status) => {
            proof {
                assert(trace@ =~= before + ended);
            }
            SemanticStage::NameFormat { status, file_format: file_format_for_language(language) }
        },
        None => {
            let analysis = text_diff_positions(language, input.analysis_rules(false), trace);
            proof {
                assert(trace@ =~= before + ended);
            }
            with_analysis(lhs_src, rhs_src, analysis)
        },
    }
}

impl<'a, D> SemanticDiff<'a, D> {
    /// Goes on after a reply.
    pub fn step(self, reply: SemanticReply<D>) -> (r: Self)
        ensures
            r.input == self.input,
            r.stage@ == self.stage@.next(self.input, reply@),
            r.trace@ == self.trace@ + self.stage@.phases(self.input, reply@),
    {
        let ghost before = self.trace@;
        let ghost ended = self.stage@.phases(self.input, reply@);
        let SemanticDiff { input, trace: mut trace, stage } = self;
        let next = match (stage, reply) {
            (SemanticStage::GuessContent, SemanticReply::Content { lhs_kind, rhs_kind }) => {
                diff_bytes_semantic_impl(lhs_kind, rhs_kind, &input.options)
            },
            (
                SemanticStage::GuessLanguage { lhs_src, rhs_src },
                SemanticReply::Language(language),
            ) => diff_file_content_semantic(&input, lhs_src, rhs_src, language, &mut trace),
            (
                SemanticStage::Analyse { lhs_src, rhs_src, analysis },
                SemanticReply::Analysis(reply),
            ) => {
                let analysis = analysis.step(input.analysis_rules(false), reply, &mut trace);
                with_analysis(lhs_src, rhs_src, analysis)
            },
            (SemanticStage::NameFormat { status, .. }, SemanticReply::FormatName(name)) => {
                let result = SemanticDiffResult {
                    status,
                    language: name,
                    line_fallback_reason: None,
                    chunks: Vec::new(),
                    aligned_lines: Vec::new(),
                };
                proof {
                    assert(result@.chunks =~= bare_result(status, name@).chunks);
                    assert(result@.aligned_lines =~= bare_result(status, name@).aligned_lines);
                }
                SemanticStage::Finished(result)
            },
            (
                SemanticStage::NamePositions { lhs_src, rhs_src, found },
                SemanticReply::FormatName(name),
            ) => SemanticStage::FindNovelLines { lhs_src, rhs_src, found, format_name: name },
            (
                SemanticStage::FindNovelLines { lhs_src, rhs_src, found, format_name },
                SemanticReply::NovelLines { lhs_novel, rhs_novel },
            ) => {
                if lhs_novel.is_empty() && rhs_novel.is_empty() {
                    trace.push(Phase::SemanticConvert);
                    SemanticStage::Finished(
                        text_positions_to_semantic(
                            &found.file_format,
                            format_name,
                            found.lhs_positions.as_slice(),
                            found.rhs_positions.as_slice(),
                            &lhs_novel,
                            &rhs_novel,
                            Vec::new(),
                        ),
                    )
                } else {
                    SemanticStage::AlignLines {
                        lhs_lines: split_lines(lhs_src.as_str()),
                        rhs_lines: split_lines(rhs_src.as_str()),
                        found,
                        format_name,
                        lhs_novel,
                        rhs_novel,
                    }
                }
            },
            (
                SemanticStage::AlignLines { found, format_name, lhs_novel, rhs_novel, .. },
                SemanticReply::Alignment(rows),
            ) => {
                trace.push(Phase::SemanticConvert);
                SemanticStage::Finished(
                    text_positions_to_semantic(
                        &found.file_format,
                        format_name,
                        found.lhs_positions.as_slice(),
                        found.rhs_positions.as_slice(),
                        &lhs_novel,
                        &rhs_novel,
                        rows,
                    ),
                )
            },
            (unanswered, _) => unanswered,
        };
        proof {
            assert(trace@ =~= before + ended);
        }
        SemanticDiff { input, trace, stage: next }
    }
}

/// What the program around a semantic diff answers, whatever is asked: one set of
/// guesses, parsers and matchers.
#[verifier::reject_recursive_types(D)]
pub struct SemanticAnswers<D> {
    /// What the bytes of a file look like.
    pub content: spec_fn(Seq<u8>, FileArgument) -> FileKindModel,
    /// The language by a displayed path and a text.
    pub language: spec_fn(Seq<char>, Seq<char>) -> Option<Seq<char>>,
    /// The parsers and matchers under the options of a diff.
    pub analysis: spec_fn(DiffOptions) -> Answers<D>,
    pub format_name: spec_fn(FileFormatModel) -> Seq<char>,
    pub novel_lines: spec_fn(TextDiffModel<D>) -> (Set<u32>, Set<u32>),
    pub alignment: spec_fn(TextDiffModel<D>, Seq<Seq<char>>, Seq<Seq<char>>) -> Seq<AlignedLine>,
}

impl<D> SemanticAnswers<D> {
    /// What the left side looks like.
    pub open spec fn lhs_kind<'a>(self, input: DiffInput<'a>) -> FileKindModel {
        (self.content)(input.lhs_bytes@, input.lhs_path)
    }

    /// What the right side looks like.
    pub open spec fn rhs_kind<'a>(self, input: DiffInput<'a>) -> FileKindModel {
        (self.content)(input.rhs_bytes@, input.rhs_path)
    }

    /// The texts that are compared, where both sides are text.
    pub open spec fn texts<'a>(self, input: DiffInput<'a>) -> Option<(Seq<char>, Seq<char>)> {
        crate::content::compared_texts(
            self.lhs_kind(input),
            self.rhs_kind(input),
            input.options.strip_cr,
        )
    }

    /// The language of two texts: it goes by the text of the right side, unless
    /// there is no file there.
    pub open spec fn guessed<'a>(
        self,
        input: DiffInput<'a>,
        lhs_src: Seq<char>,
        rhs_src: Seq<char>,
    ) -> Option<Seq<char>> {
        (self.language)(
            input.display_path@,
            crate::content::guess_text(input.rhs_path, lhs_src, rhs_src),
        )
    }

    /// How many sections are left to match in the texts that are compared.
    pub open spec fn sections<'a>(self, input: DiffInput<'a>) -> nat {
        match self.texts(input) {
            Some(texts) => (self.analysis)(input.options).section_count(
                texts,
                self.guessed(input, texts.0, texts.1),
            ),
            None => 0,
        }
    }

    /// The reply to what a diff asks for.
    pub open spec fn reply<'a>(
        self,
        input: DiffInput<'a>,
        stage: SemanticStageModel<D>,
    ) -> SemanticReplyModel<D> {
        match stage {
            SemanticStageModel::GuessContent => SemanticReplyModel::Content {
                lhs_kind: self.lhs_kind(input),
                rhs_kind: self.rhs_kind(input),
            },
            SemanticStageModel::GuessLanguage { lhs_src, rhs_src } => SemanticReplyModel::Language(
                self.guessed(input, lhs_src, rhs_src),
            ),
            SemanticStageModel::Analyse { lhs_src, rhs_src, analysis } =>
                SemanticReplyModel::Analysis(
                (self.analysis)(input.options).reply((lhs_src, rhs_src), analysis),
            ),
            SemanticStageModel::NameFormat { file_format, .. } => SemanticReplyModel::FormatName(
                (self.format_name)(file_format),
            ),
            SemanticStageModel::NamePositions { found, .. } => SemanticReplyModel::FormatName(
                (self.format_name)(found.file_format),
            ),
            SemanticStageModel::FindNovelLines { found, .. } => SemanticReplyModel::NovelLines {
                lhs_novel: (self.novel_lines)(found).0,
                rhs_novel: (self.novel_lines)(found).1,
            },
            SemanticStageModel::AlignLines { found, lhs_lines, rhs_lines, .. } =>
                SemanticReplyModel::Alignment((self.alignment)(found, lhs_lines, rhs_lines)),
            SemanticStageModel::Finished(_) => SemanticReplyModel::Language(None),
        }
    }

    /// Where a diff stands after some replies.
    pub open spec fn run<'a>(
        self,
        input: DiffInput<'a>,
        stage: SemanticStageModel<D>,
        steps: nat,
    ) -> SemanticStageModel<D>
        decreases steps,
    {
        if steps == 0 {
            stage
        } else {
            self.run(input, stage.next(input, self.reply(input, stage)), (steps - 1) as nat)
        }
    }

    /// What the positions found in two texts come to.
    pub open spec fn compared(
        self,
        lhs_src: Seq<char>,
        rhs_src: Seq<char>,
        found: TextDiffModel<D>,
    ) -> SemanticDiffModel {
        crate::semantic::semantic_result(
            found.file_format,
            (self.format_name)(found.file_format),
            found.lhs_positions,
            found.rhs_positions,
            (self.novel_lines)(found).0,
            (self.novel_lines)(found).1,
            (self.alignment)(
                found,
                crate::text::lines_of(lhs_src),
                crate::text::lines_of(rhs_src),
            ),
        )
    }

    /// The positions that are found in two texts.
    pub open spec fn found<'a>(
        self,
        input: DiffInput<'a>,
        lhs_src: Seq<char>,
        rhs_src: Seq<char>,
    ) -> TextDiffModel<D> {
        (self.analysis)(input.options).outcome(
            (lhs_src, rhs_src),
            input.rules(false),
            self.guessed(input, lhs_src, rhs_src),
        )->Positions_0
    }

    /// What a semantic diff comes to. A binary side makes the file binary. A
    /// missing side makes it created or deleted. The same text on both sides
    /// makes it unchanged. Else the texts are compared.
    pub open spec fn result<'a>(self, input: DiffInput<'a>) -> SemanticDiffModel {
        match self.texts(input) {
            None => bare_result(DiffStatus::Binary, (self.format_name)(FileFormatModel::Binary)),
            Some(texts) => match plain_status(input.lhs_path, input.rhs_path, texts.0, texts.1) {
                Some(status) => bare_result(
                    status,
                    (self.format_name)(
                        FileFormatModel::of_language(self.guessed(input, texts.0, texts.1)),
                    ),
                ),
                None => self.compared(texts.0, texts.1, self.found(input, texts.0, texts.1)),
            },
        }
    }

    proof fn lemma_finished_stays<'a>(
        self,
        input: DiffInput<'a>,
        result: SemanticDiffModel,
        steps: nat,
    )
        ensures
            self.run(input, SemanticStageModel::Finished(result), steps)
                == SemanticStageModel::<D>::Finished(result),
        decreases steps,
    {
        if steps > 0 {
            self.lemma_finished_stays(input, result, (steps - 1) as nat);
        }
    }

    proof fn lemma_named<'a>(
        self,
        input: DiffInput<'a>,
        lhs_src: Seq<char>,
        rhs_src: Seq<char>,
        found: TextDiffModel<D>,
        steps: nat,
    )
        requires
            steps >= 3,
        ensures
            self.run(input, SemanticStageModel::NamePositions { lhs_src, rhs_src, found }, steps)
                == SemanticStageModel::<D>::Finished(self.compared(lhs_src, rhs_src, found)),
    {
        let stage = SemanticStageModel::<D>::NamePositions { lhs_src, rhs_src, found };
        let named = stage.next(input, self.reply(input, stage));
        let novel = (self.novel_lines)(found);
        let marked = named.next(input, self.reply(input, named));
        assert(self.run(input, stage, steps) == self.run(input, named, (steps - 1) as nat));
        assert(self.run(input, named, (steps - 1) as nat) == self.run(
            input,
            marked,
            (steps - 2) as nat,
        ));
        if novel.0.is_empty() && novel.1.is_empty() {
            law_no_novel_lines(
                found,
                (self.format_name)(found.file_format),
                novel.0,
                novel.1,
                Seq::empty(),
                (self.alignment)(
                    found,
                    crate::text::lines_of(lhs_src),
                    crate::text::lines_of(rhs_src),
                ),
            );
            self.lemma_finished_stays(
                input,
                self.compared(lhs_src, rhs_src, found),
                (steps - 2) as nat,
            );
        } else {
            let aligned = marked.next(input, self.reply(input, marked));
            assert(self.run(input, marked, (steps - 2) as nat) == self.run(
                input,
                aligned,
                (steps - 3) as nat,
            ));
            self.lemma_finished_stays(
                input,
                self.compared(lhs_src, rhs_src, found),
                (steps - 3) as nat,
            );
        }
    }

    /// A diff follows the comparison of its texts to its end.
    proof fn lemma_follows<'a>(
        self,
        input: DiffInput<'a>,
        lhs_src: Seq<char>,
        rhs_src: Seq<char>,
        analysis: AnalysisModel<D>,
        found: TextDiffModel<D>,
        needed: nat,
        steps: nat,
    )
        requires
            (self.analysis)(input.options).run(
                (lhs_src, rhs_src),
                input.rules(false),
                analysis,
                needed,
            ) == AnalysisModel::Finished(OutcomeModel::Positions(found)),
            steps >= needed + 3,
        ensures
            self.run(input, SemanticStageModel::with_analysis(lhs_src, rhs_src, analysis), steps)
                == SemanticStageModel::<D>::Finished(self.compared(lhs_src, rhs_src, found)),
        decreases needed,
    {
        let rules = input.rules(false);
        let answers = (self.analysis)(input.options);
        match analysis {
            AnalysisModel::Finished(OutcomeModel::Positions(ended)) => {
                answers.lemma_run_finished((lhs_src, rhs_src), rules, OutcomeModel::Positions(ended), needed);
                self.lemma_named(input, lhs_src, rhs_src, found, steps);
            },
            _ => {
                if needed > 0 {
                    let next = analysis.next(rules, answers.reply((lhs_src, rhs_src), analysis));
                    let stage = SemanticStageModel::<D>::with_analysis(lhs_src, rhs_src, analysis);
                    assert(stage.next(input, self.reply(input, stage))
                        == SemanticStageModel::<D>::with_analysis(lhs_src, rhs_src, next));
                    self.lemma_follows(
                        input,
                        lhs_src,
                        rhs_src,
                        next,
                        found,
                        (needed - 1) as nat,
                        (steps - 1) as nat,
                    );
                }
            },
        }
    }

    /// However the program around it answers, a semantic diff ends after at most
    /// twelve replies and one for each section, and it ends with the result that
    /// the answers come to.
    pub proof fn law_semantic_diff_ends<'a>(self, input: DiffInput<'a>, steps: nat)
        requires
            steps >= 12 + self.sections(input),
        ensures
            self.run(input, SemanticStageModel::GuessContent, steps)
                == SemanticStageModel::<D>::Finished(self.result(input)),
    {
        let start = SemanticStageModel::<D>::GuessContent;
        let second = start.next(input, self.reply(input, start));
        let third = second.next(input, self.reply(input, second));
        let rest = (steps - 2) as nat;
        assert(self.run(input, start, steps) == self.run(input, second, (steps - 1) as nat));
        assert(self.run(input, second, (steps - 1) as nat) == self.run(input, third, rest));
        match self.texts(input) {
            None => {
                self.lemma_finished_stays(input, self.result(input), rest);
            },
            Some(texts) => {
                match plain_status(input.lhs_path, input.rhs_path, texts.0, texts.1) {
                    Some(_) => {
                        assert(self.run(input, third, rest) == self.run(
                            input,
                            third.next(input, self.reply(input, third)),
                            (rest - 1) as nat,
                        ));
                        self.lemma_finished_stays(input, self.result(input), (rest - 1) as nat);
                    },
                    None => {
                        let rules = input.rules(false);
                        let answers = (self.analysis)(input.options);
                        let language = self.guessed(input, texts.0, texts.1);
                        let needed = (7 + self.sections(input)) as nat;
                        let outcome = answers.outcome(texts, rules, language);
                        answers.law_analysis_ends(texts, rules, language, needed);
                        assert(outcome is Positions);
                        self.lemma_follows(
                            input,
                            texts.0,
                            texts.1,
                            AnalysisModel::start(language, rules),
                            outcome->Positions_0,
                            needed,
                            rest,
                        );
                    },
                }
            },
        }
    }

    /// What every result keeps: rows are shown where the file changed and nowhere
    /// else, the full alignment comes with them, and a reason to compare lines is
    /// given only for texts that were compared.
    pub proof fn law_result_shape<'a>(self, input: DiffInput<'a>)
        ensures
            ({
                let result = self.result(input);
                &&& result.status == DiffStatus::Changed <==> result.chunks.len() > 0
                &&& result.chunks.len() > 0 <==> result.aligned_lines.len() > 0
                &&& result.line_fallback_reason is Some ==> (result.status == DiffStatus::Changed
                    || result.status == DiffStatus::Unchanged)
            }),
    {
        match self.texts(input) {
            None => {},
            Some(texts) => {
                if plain_status(input.lhs_path, input.rhs_path, texts.0, texts.1) is None {
                    let found = self.found(input, texts.0, texts.1);
                    crate::semantic::law_changed_has_rows(
                        found.file_format,
                        (self.format_name)(found.file_format),
                        found.lhs_positions,
                        found.rhs_positions,
                        (self.novel_lines)(found).0,
                        (self.novel_lines)(found).1,
                        (self.alignment)(
                            found,
                            crate::text::lines_of(texts.0),
                            crate::text::lines_of(texts.1),
                        ),
                    );
                }
            },
        }
    }

    /// A text file with no left side was created, and one with no right side was
    /// deleted. Neither needs a parser or a matcher: once the language is
    /// guessed, only the name of the format is asked for.
    pub proof fn law_created_and_deleted<'a>(self, input: DiffInput<'a>)
        requires
            input.lhs_path is DevNull <==> !(input.rhs_path is DevNull),
            self.texts(input) is Some,
        ensures
            ({
                let texts = self.texts(input)->Some_0;
                let language = self.guessed(input, texts.0, texts.1);
                let status = if input.lhs_path is DevNull {
                    DiffStatus::Created
                } else {
                    DiffStatus::Deleted
                };
                let file_format = FileFormatModel::of_language(language);
                &&& SemanticStageModel::<D>::after_language(input, texts.0, texts.1, language) == (
                SemanticStageModel::<D>::NameFormat { status, file_format })
                &&& self.result(input) == bare_result(status, (self.format_name)(file_format))
            }),
    {
    }

    /// A file whose two sides have the same text is unchanged, and nothing is
    /// parsed or matched to find that.
    pub proof fn law_same_text_unchanged<'a>(self, input: DiffInput<'a>)
        requires
            input.lhs_path is DevNull <==> input.rhs_path is DevNull,
            self.texts(input) matches Some(texts) && texts.0 == texts.1,
        ensures
            ({
                let text = self.texts(input)->Some_0.0;
                let language = self.guessed(input, text, text);
                let file_format = FileFormatModel::of_language(language);
                &&& SemanticStageModel::<D>::after_language(input, text, text, language) == (
                SemanticStageModel::<D>::NameFormat { status: DiffStatus::Unchanged, file_format })
                &&& self.result(input) == bare_result(
                    DiffStatus::Unchanged,
                    (self.format_name)(file_format),
                )
            }),
    {
    }

    /// A file with a binary side is binary, whatever is on the other side and
    /// whichever side it is.
    pub proof fn law_binary_side<'a>(self, input: DiffInput<'a>)
        requires
            self.lhs_kind(input) is Binary || self.rhs_kind(input) is Binary,
        ensures
            self.result(input) == bare_result(
                DiffStatus::Binary,
                (self.format_name)(FileFormatModel::Binary),
            ),
    {
    }

    /// Which file stands on a side goes by the request: a side with a path is a
    /// file even where it is empty, and so is a side with content and no path.
    /// Only a side with neither is missing. Of two texts the file was created
    /// where the left side alone is missing and only there, and deleted where the
    /// right side alone is.
    pub proof fn law_paths_tell_created_and_deleted<'a>(
        self,
        request: DiffRequest<'a>,
        options: DiffOptions,
        keep_unchanged: bool,
    )
        ensures
            ({
                let input = DiffInput::of_request(request, options, keep_unchanged);
                let result = self.result(input);
                let is_text = self.texts(input) is Some;
                let lhs_missing = request.lhs_path is None && request.lhs_bytes@.len() == 0;
                let rhs_missing = request.rhs_path is None && request.rhs_bytes@.len() == 0;
                let created = lhs_missing && !rhs_missing;
                let deleted = rhs_missing && !lhs_missing;
                &&& input.lhs_path is DevNull <==> lhs_missing
                &&& input.rhs_path is DevNull <==> rhs_missing
                &&& result.status == DiffStatus::Created <==> is_text && created
                &&& result.status == DiffStatus::Deleted <==> is_text && deleted
                &&& forall|lhs_src: Seq<char>, rhs_src: Seq<char>|
                    {
                        let status = #[trigger] plain_status(
                            input.lhs_path,
                            input.rhs_path,
                            lhs_src,
                            rhs_src,
                        );
                        &&& status == Some(DiffStatus::Created) <==> created
                        &&& status == Some(DiffStatus::Deleted) <==> deleted
                    }
            }),
    {
    }

    /// Exchanging the two sides of a request exchanges created and deleted and
    /// keeps binary, and in these cases everything else in the result stays as it
    /// is. Two sides with the same text are unchanged either way, with the same
    /// result, unless one of them is missing.
    pub proof fn law_sides_exchanged<'a>(
        self,
        request: DiffRequest<'a>,
        options: DiffOptions,
        keep_unchanged: bool,
    )
        ensures
            ({
                let input = DiffInput::of_request(request, options, keep_unchanged);
                let one = self.result(input);
                let other = self.result(
                    DiffInput::of_request(request.exchanged(), options, keep_unchanged),
                );
                &&& one.status == DiffStatus::Created ==> other == (SemanticDiffModel {
                    status: DiffStatus::Deleted,
                    ..one
                })
                &&& one.status == DiffStatus::Deleted ==> other == (SemanticDiffModel {
                    status: DiffStatus::Created,
                    ..one
                })
                &&& one.status == DiffStatus::Binary ==> other == one
                &&& one.status == DiffStatus::Created <==> other.status == DiffStatus::Deleted
                &&& one.status == DiffStatus::Deleted <==> other.status == DiffStatus::Created
                &&& one.status == DiffStatus::Binary <==> other.status == DiffStatus::Binary
                &&& (request.lhs_missing() <==> request.rhs_missing()) && (self.texts(
                    input,
                ) matches Some(texts) && texts.0 == texts.1) ==> other == one && one.status
                    == DiffStatus::Unchanged
            }),
    {
    }

    /// A text file gets a result without comparison only where one side alone is
    /// missing or the two texts are the same: where the texts that are compared
    /// differ, and both sides are present or both missing, the result is that of the
    /// positions found in these two texts.
    pub proof fn law_result_of_comparison<'a>(self, input: DiffInput<'a>)
        requires
            input.lhs_path is DevNull <==> input.rhs_path is DevNull,
            self.texts(input) matches Some(texts) && texts.0 != texts.1,
        ensures
            ({
                let texts = self.texts(input)->Some_0;
                let language = (self.language)(
                    input.display_path@,
                    if input.rhs_path is DevNull {
                        texts.0
                    } else {
                        texts.1
                    },
                );
                let rules = crate::analysis::AnalysisRules {
                    check_only: false,
                    ignore_comments: input.options.ignore_comments,
                    keep_unchanged: input.keep_unchanged,
                };
                let outcome = (self.analysis)(input.options).outcome(texts, rules, language);
                outcome matches OutcomeModel::Positions(found) && {
                    let (lhs_novel, rhs_novel) = (self.novel_lines)(found);
                    self.result(input) == crate::semantic::semantic_result(
                        found.file_format,
                        (self.format_name)(found.file_format),
                        found.lhs_positions,
                        found.rhs_positions,
                        lhs_novel,
                        rhs_novel,
                        (self.alignment)(
                            found,
                            crate::text::lines_of(texts.0),
                            crate::text::lines_of(texts.1),
                        ),
                    )
                }
            }),
    {
    }

    /// A final newline that one side lacks does not show: the file is unchanged,
    /// as long as the text without it is not empty and does not end in a newline
    /// by itself once carriage returns are gone where they go.
    pub proof fn law_final_newline_unchanged<'a>(self, input: DiffInput<'a>, text: Seq<char>)
        requires
            input.lhs_path is DevNull <==> input.rhs_path is DevNull,
            crate::text::lacks_newline(text, input.options.strip_cr),
            ({
                let short = FileKindModel::Text(text);
                let full = FileKindModel::Text(text.push('\n'));
                ||| self.lhs_kind(input) == short && self.rhs_kind(input) == full
                ||| self.lhs_kind(input) == full && self.rhs_kind(input) == short
            }),
        ensures
            ({
                let compared = crate::text::normalized(text, input.options.strip_cr);
                self.result(input) == bare_result(
                    DiffStatus::Unchanged,
                    (self.format_name)(
                        FileFormatModel::of_language(self.guessed(input, compared, compared)),
                    ),
                )
            }),
    {
        crate::text::law_final_newline_hidden(text, input.options.strip_cr);
    }
}

/// Where no line has a change, the result does not depend on how the lines are
/// aligned.
pub proof fn law_no_novel_lines<D>(
    found: TextDiffModel<D>,
    format_name: Seq<char>,
    lhs_novel: Set<u32>,
    rhs_novel: Set<u32>,
    rows: Seq<AlignedLine>,
    other_rows: Seq<AlignedLine>,
)
    requires
        lhs_novel.is_empty(),
        rhs_novel.is_empty(),
    ensures
        crate::semantic::semantic_result(
            found.file_format,
            format_name,
            found.lhs_positions,
            found.rhs_positions,
            lhs_novel,
            rhs_novel,
            rows,
        ) == crate::semantic::semantic_result(
            found.file_format,
            format_name,
            found.lhs_positions,
            found.rhs_positions,
            lhs_novel,
            rhs_novel,
            other_rows,
        ),
{
    crate::semantic::law_unchanged_without_novel(
        found.file_format,
        format_name,
        found.lhs_positions,
        found.rhs_positions,
        lhs_novel,
        rhs_novel,
        rows,
    );
    crate::semantic::law_unchanged_without_novel(
        found.file_format,
        format_name,
        found.lhs_positions,
        found.rhs_positions,
        lhs_novel,
        rhs_novel,
        other_rows,
    );
}

/// A file with a binary side, whichever side that is, goes straight to its name.
/// Two texts go on to the guess of their language, each prepared and on its own
/// side.
pub proof fn law_content_decides_binary<'a, D>(
    input: DiffInput<'a>,
    lhs_kind: FileKindModel,
    rhs_kind: FileKindModel,
)
    ensures
        ({
            let next = SemanticStageModel::<D>::GuessContent.next(
                input,
                SemanticReplyModel::Content { lhs_kind, rhs_kind },
            );
            let after = SemanticStageModel::<D>::after_content(lhs_kind, rhs_kind, input.options);
            let binary = SemanticStageModel::<D>::NameFormat {
                status: DiffStatus::Binary,
                file_format: FileFormatModel::Binary,
            };
            &&& after == next
            &&& lhs_kind is Binary || rhs_kind is Binary ==> next == binary
            &&& lhs_kind is Text && rhs_kind is Text ==> next == (
            SemanticStageModel::<D>::GuessLanguage {
                lhs_src: crate::text::normalized(lhs_kind->Text_0, input.options.strip_cr),
                rhs_src: crate::text::normalized(rhs_kind->Text_0, input.options.strip_cr),
            })
        }),
{
}

/// What the texts and the paths decide by themselves. Where one side alone is
/// missing the file was created or deleted. Else the file is unchanged exactly
/// where the two texts are the same, character by character. Texts that differ
/// anywhere, with both sides present or both missing, are always compared.
pub proof fn law_differing_texts_compared<'a, D>(
    input: DiffInput<'a>,
    lhs_src: Seq<char>,
    rhs_src: Seq<char>,
    language: Option<Seq<char>>,
)
    ensures
        ({
            let next = (SemanticStageModel::<D>::GuessLanguage { lhs_src, rhs_src }).next(
                input,
                SemanticReplyModel::Language(language),
            );
            let after = SemanticStageModel::<D>::after_language(input, lhs_src, rhs_src, language);
            let file_format = match language {
                Some(name) => FileFormatModel::SupportedLanguage(name),
                None => FileFormatModel::PlainText,
            };
            let same = lhs_src.len() == rhs_src.len() && forall|i: int|
                0 <= i < lhs_src.len() ==> #[trigger] lhs_src[i] == rhs_src[i];
            let lhs_missing = input.lhs_path is DevNull;
            let rhs_missing = input.rhs_path is DevNull;
            &&& after == next
            &&& lhs_missing && !rhs_missing ==> next == (SemanticStageModel::<D>::NameFormat {
                status: DiffStatus::Created,
                file_format,
            })
            &&& rhs_missing && !lhs_missing ==> next == (SemanticStageModel::<D>::NameFormat {
                status: DiffStatus::Deleted,
                file_format,
            })
            &&& lhs_missing == rhs_missing && same ==> next == (
            SemanticStageModel::<D>::NameFormat { status: DiffStatus::Unchanged, file_format })
            &&& lhs_missing == rhs_missing && !same ==> next == (
            SemanticStageModel::<D>::Analyse {
                lhs_src,
                rhs_src,
                analysis: match language {
                    Some(name) => AnalysisModel::LoadGrammar { language: name },
                    None => AnalysisModel::CompareLines { file_format },
                },
            })
        }),
{
    if lhs_src.len() == rhs_src.len() && forall|i: int|
        0 <= i < lhs_src.len() ==> #[trigger] lhs_src[i] == rhs_src[i] {
        assert(lhs_src =~= rhs_src);
    }
}

/// Texts under comparison stay as they are, and the comparison goes on by the
/// options of the diff, never as a mere check. Once it has found positions, these
/// are carried on as they were found.
pub proof fn law_comparison_carried_on<'a, D>(
    input: DiffInput<'a>,
    lhs_src: Seq<char>,
    rhs_src: Seq<char>,
    analysis: AnalysisModel<D>,
    reply: AnalysisReplyModel<D>,
)
    ensures
        ({
            let rules = crate::analysis::AnalysisRules {
                check_only: false,
                ignore_comments: input.options.ignore_comments,
                keep_unchanged: input.keep_unchanged,
            };
            let stage = SemanticStageModel::<D>::Analyse { lhs_src, rhs_src, analysis };
            let next = stage.next(input, SemanticReplyModel::Analysis(reply));
            &&& match analysis.next(rules, reply) {
                AnalysisModel::Finished(OutcomeModel::Positions(found)) => next == (
                SemanticStageModel::<D>::NamePositions { lhs_src, rhs_src, found }),
                later => next == (SemanticStageModel::<D>::Analyse {
                    lhs_src,
                    rhs_src,
                    analysis: later,
                }),
            }
            &&& stage.phases(input, SemanticReplyModel::Analysis(reply)) == analysis.phases(
                rules,
                reply,
            )
        }),
{
}

/// How a result comes about once the texts are compared, or need not be. The name
/// of the format, the positions and the lines with a change are carried on as they
/// were found, each on its own side. A file that needs no comparison has its
/// status and its name and nothing else. Where no line has a change nothing is
/// aligned, else the lines of both texts are.
pub proof fn law_findings_carried_on<'a, D>(
    input: DiffInput<'a>,
    lhs_src: Seq<char>,
    rhs_src: Seq<char>,
    status: DiffStatus,
    found: TextDiffModel<D>,
    format_name: Seq<char>,
    lhs_novel: Set<u32>,
    rhs_novel: Set<u32>,
    rows: Seq<AlignedLine>,
)
    ensures
        (SemanticStageModel::<D>::NameFormat { status, file_format: found.file_format }).next(
            input,
            SemanticReplyModel::FormatName(format_name),
        ) == SemanticStageModel::<D>::Finished(
            SemanticDiffModel {
                status,
                language: format_name,
                line_fallback_reason: None,
                chunks: Seq::empty(),
                aligned_lines: Seq::empty(),
            },
        ),
        (SemanticStageModel::<D>::NamePositions { lhs_src, rhs_src, found }).next(
            input,
            SemanticReplyModel::FormatName(format_name),
        ) == (SemanticStageModel::<D>::FindNovelLines { lhs_src, rhs_src, found, format_name }),
        ({
            let marked = (SemanticStageModel::<D>::FindNovelLines {
                lhs_src,
                rhs_src,
                found,
                format_name,
            }).next(input, SemanticReplyModel::NovelLines { lhs_novel, rhs_novel });
            if (forall|line: u32| !#[trigger] lhs_novel.contains(line)) && (forall|line: u32|
                !#[trigger] rhs_novel.contains(line)) {
                marked == SemanticStageModel::<D>::Finished(
                    SemanticDiffModel {
                        status: DiffStatus::Unchanged,
                        language: format_name,
                        line_fallback_reason: match found.file_format {
                            FileFormatModel::TextFallback { reason } => Some(reason),
                            _ => None,
                        },
                        chunks: Seq::empty(),
                        aligned_lines: Seq::empty(),
                    },
                )
            } else {
                marked == (SemanticStageModel::<D>::AlignLines {
                    lhs_lines: crate::text::lines_of(lhs_src),
                    rhs_lines: crate::text::lines_of(rhs_src),
                    found,
                    format_name,
                    lhs_novel,
                    rhs_novel,
                })
            }
        }),
        (SemanticStageModel::<D>::AlignLines {
            lhs_lines: crate::text::lines_of(lhs_src),
            rhs_lines: crate::text::lines_of(rhs_src),
            found,
            format_name,
            lhs_novel,
            rhs_novel,
        }).next(input, SemanticReplyModel::Alignment(rows)) == SemanticStageModel::<D>::Finished(
            crate::semantic::semantic_result(
                found.file_format,
                format_name,
                found.lhs_positions,
                found.rhs_positions,
                lhs_novel,
                rhs_novel,
                rows,
            ),
        ),
{
    if lhs_novel.is_empty() && rhs_novel.is_empty() {
        crate::semantic::law_unchanged_without_novel(
            found.file_format,
            format_name,
            found.lhs_positions,
            found.rhs_positions,
            lhs_novel,
            rhs_novel,
            Seq::empty(),
        );
    } else {
        if forall|line: u32| !#[trigger] lhs_novel.contains(line) {
            assert(lhs_novel =~= Set::empty());
        }
        if forall|line: u32| !#[trigger] rhs_novel.contains(line) {
            assert(rhs_novel =~= Set::empty());
        }
    }
}

/// A reply to something that was not asked changes nothing and ends no phase.
pub proof fn law_unasked_reply_ignored<'a, D>(
    input: DiffInput<'a>,
    stage: SemanticStageModel<D>,
    reply: SemanticReplyModel<D>,
)
    requires
        stage is GuessContent ==> !(reply is Content),
        stage is GuessLanguage ==> !(reply is Language),
        stage is Analyse ==> !(reply is Analysis),
        stage is NameFormat ==> !(reply is FormatName),
        stage is NamePositions ==> !(reply is FormatName),
        stage is FindNovelLines ==> !(reply is NovelLines),
        stage is AlignLines ==> !(reply is Alignment),
    ensures
        stage.next(input, reply) == stage,
        stage.phases(input, reply) == Seq::<Phase>::empty(),
{
}

/// Which phases are over after a reply. A guess ends its phase, and with it that of
/// a file which needs no comparison, or the choice of a grammar where there is no
/// language. The conversion ends when the result is there, and naming and reading
/// end none.
pub proof fn law_phases_end_with_their_work<'a, D>(
    input: DiffInput<'a>,
    stage: SemanticStageModel<D>,
    reply: SemanticReplyModel<D>,
)
    ensures
        stage is GuessContent || stage is NameFormat || stage is NamePositions ==> stage.phases(
            input,
            reply,
        ) == Seq::<Phase>::empty(),
        stage matches SemanticStageModel::GuessLanguage { lhs_src, rhs_src } ==> (
        reply matches SemanticReplyModel::Language(language) ==> {
            let ended = match stage.next(input, reply) {
                SemanticStageModel::NameFormat { status: DiffStatus::Created, .. } => seq![
                    Phase::GuessLanguage,
                    Phase::Created,
                ],
                SemanticStageModel::NameFormat { status: DiffStatus::Deleted, .. } => seq![
                    Phase::GuessLanguage,
                    Phase::Deleted,
                ],
                SemanticStageModel::NameFormat { .. } => seq![
                    Phase::GuessLanguage,
                    Phase::UnchangedBytes,
                ],
                _ => if language is None {
                    seq![Phase::GuessLanguage, Phase::LanguageConfig]
                } else {
                    seq![Phase::GuessLanguage]
                },
            };
            &&& stage.phases(input, reply) == ended
            &&& SemanticStageModel::<D>::language_phases(input, lhs_src, rhs_src, language)
                == ended
        }),
        stage is FindNovelLines && reply is NovelLines ==> stage.phases(input, reply) == (
        if stage.next(input, reply) is Finished {
            seq![Phase::SemanticConvert]
        } else {
            Seq::empty()
        }),
        stage is AlignLines && reply is Alignment ==> stage.phases(input, reply) == seq![
            Phase::SemanticConvert,
        ],
{
    assert(seq![Phase::GuessLanguage] + seq![Phase::Created] =~= seq![
        Phase::GuessLanguage,
        Phase::Created,
    ]);
    assert(seq![Phase::GuessLanguage] + seq![Phase::Deleted] =~= seq![
        Phase::GuessLanguage,
        Phase::Deleted,
    ]);
    assert(seq![Phase::GuessLanguage] + seq![Phase::UnchangedBytes] =~= seq![
        Phase::GuessLanguage,
        Phase::UnchangedBytes,
    ]);
    assert(seq![Phase::GuessLanguage] + seq![Phase::LanguageConfig] =~= seq![
        Phase::GuessLanguage,
        Phase::LanguageConfig,
    ]);
    assert(seq![Phase::GuessLanguage] + Seq::<Phase>::empty() =~= seq![Phase::GuessLanguage]);
}

/// What a diff asks for is told as it is asked, each side on its own side.
pub proof fn law_stage_view<D>(stage: SemanticStage<D>)
    ensures
        stage is GuessContent ==> stage@ is GuessContent,
        stage matches SemanticStage::GuessLanguage { lhs_src, rhs_src } ==> stage@ == (
        SemanticStageModel::<D>::GuessLanguage { lhs_src: lhs_src@, rhs_src: rhs_src@ }),
        stage matches SemanticStage::Analyse { lhs_src, rhs_src, analysis } ==> stage@ == (
        SemanticStageModel::Analyse {
            lhs_src: lhs_src@,
            rhs_src: rhs_src@,
            analysis: analysis@,
        }),
        stage matches SemanticStage::NameFormat { status, file_format } ==> stage@ == (
        SemanticStageModel::<D>::NameFormat { status, file_format: file_format@ }),
        stage matches SemanticStage::NamePositions { lhs_src, rhs_src, found } ==> stage@ == (
        SemanticStageModel::NamePositions {
            lhs_src: lhs_src@,
            rhs_src: rhs_src@,
            found: found@,
        }),
        stage matches SemanticStage::FindNovelLines { lhs_src, rhs_src, found, format_name }
            ==> stage@ == (SemanticStageModel::FindNovelLines {
            lhs_src: lhs_src@,
            rhs_src: rhs_src@,
            found: found@,
            format_name: format_name@,
        }),
        stage matches SemanticStage::AlignLines {
            lhs_lines,
            rhs_lines,
            found,
            format_name,
            lhs_novel,
            rhs_novel,
        } ==> (stage@ matches SemanticStageModel::AlignLines {
            lhs_lines: lhs_texts,
            rhs_lines: rhs_texts,
            found: told,
            format_name: name,
            lhs_novel: lhs_set,
            rhs_novel: rhs_set,
        } && {
            &&& lhs_texts.len() == lhs_lines@.len()
            &&& forall|i: int| 0 <= i < lhs_lines@.len() ==> #[trigger] lhs_texts[i] == lhs_lines@[i]@
            &&& rhs_texts.len() == rhs_lines@.len()
            &&& forall|i: int| 0 <= i < rhs_lines@.len() ==> #[trigger] rhs_texts[i] == rhs_lines@[i]@
            &&& told == found@
            &&& name == format_name@
            &&& lhs_set == lhs_novel@
            &&& rhs_set == rhs_novel@
        }),
        stage matches SemanticStage::Finished(result) ==> stage@ == SemanticStageModel::<
            D,
        >::Finished(result@),
{
}

/// A reply is told as it was given, each side on its own side.
pub proof fn law_reply_view<D>(reply: SemanticReply<D>)
    ensures
        reply matches SemanticReply::Content { lhs_kind, rhs_kind } ==> reply@ == (
        SemanticReplyModel::<D>::Content { lhs_kind: lhs_kind@, rhs_kind: rhs_kind@ }),
        reply matches SemanticReply::Language(Some(language)) ==> reply@ == SemanticReplyModel::<
            D,
        >::Language(Some(language.name@)),
        reply matches SemanticReply::Language(None) ==> reply@ == SemanticReplyModel::<
            D,
        >::Language(None),
        reply matches SemanticReply::Analysis(inner) ==> reply@ == SemanticReplyModel::Analysis(
            inner@,
        ),
        reply matches SemanticReply::FormatName(name) ==> reply@ == SemanticReplyModel::<
            D,
        >::FormatName(name@),
        reply matches SemanticReply::NovelLines { lhs_novel, rhs_novel } ==> reply@ == (
        SemanticReplyModel::<D>::NovelLines { lhs_novel: lhs_novel@, rhs_novel: rhs_novel@ }),
        reply matches SemanticReply::Alignment(rows) ==> reply@ == SemanticReplyModel::<
            D,
        >::Alignment(rows@),
{
}

} // verus!
