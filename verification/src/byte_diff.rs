//! A diff of two versions of a file that is shown as hunks, one step at a time.
//!
//! A [`ByteDiff`] says what it needs next. The program around it does that and
//! hands back a reply, until the result is there.

use vstd::prelude::*;
use vstd::string::*;

use crate::analysis::{
    text_diff_positions, Analysis, AnalysisModel, AnalysisReply, AnalysisReplyModel, Answers,
    Outcome, OutcomeModel, TextDiffModel, TextDiffPositions,
};
use crate::content::{prepare_sources, DiffInput, FileKindModel, ProbableFileKind};
use crate::format::{file_format_for_language, FileFormat, FileFormatModel, Language};
use crate::matched::MatchedPos;
use crate::options::{DiffOptions, DiffRequest, DisplayOptions, FileArgument};
use crate::timing::Phase;

verus! {

/// The content of one side, as a result carries it.
#[derive(Debug, PartialEq, Eq)]
pub enum FileContent {
    Text(String),
    Binary,
}

/// The result of a diff. `H` is a hunk, which is made and read elsewhere.
pub struct DiffResult<D, H> {
    pub extra_info: Option<String>,
    pub display_path: String,
    pub file_format: FileFormat,
    pub lhs_src: FileContent,
    pub rhs_src: FileContent,
    pub lhs_positions: Vec<MatchedPos<D>>,
    pub rhs_positions: Vec<MatchedPos<D>>,
    pub hunks: Vec<H>,
    /// The sizes of the two sides in bytes, where they differ at all.
    pub has_byte_changes: Option<(usize, usize)>,
    pub has_syntactic_changes: bool,
}

/// What a diff needs next.
pub enum ByteStage<D, H> {
    /// Find whether the bytes of either side are text.
    GuessContent,
    /// Guess the language by the displayed path and
    /// [`guess_source`](crate::content::guess_source).
    GuessLanguage { lhs_src: String, rhs_src: String },
    /// Do what the comparison of the two texts asks for.
    Analyse { lhs_src: String, rhs_src: String, analysis: Analysis<D> },
    /// Make hunks of the positions, and merge those whose context would touch.
    MergeHunks {
        lhs_src: String,
        rhs_src: String,
        found: TextDiffPositions<D>,
        num_context_lines: usize,
    },
    /// Nothing more.
    Finished(DiffResult<D, H>),
}

/// What came of what a diff asked for.
pub enum ByteReply<D, H> {
    Content { lhs_kind: ProbableFileKind, rhs_kind: ProbableFileKind },
    Language(Option<Language>),
    Analysis(AnalysisReply<D>),
    Hunks(Vec<H>),
}

/// A diff under way.
pub struct ByteDiff<'a, D, H> {
    pub input: DiffInput<'a>,
    pub display_options: DisplayOptions,
    pub stage: ByteStage<D, H>,
}

/// A [`FileContent`] with its text as a sequence of characters.
pub enum FileContentModel {
    Text(Seq<char>),
    Binary,
}

/// A [`DiffResult`] with its texts and lists as sequences.
pub struct DiffResultModel<D, H> {
    pub extra_info: Option<Seq<char>>,
    pub display_path: Seq<char>,
    pub file_format: FileFormatModel,
    pub lhs_src: FileContentModel,
    pub rhs_src: FileContentModel,
    pub lhs_positions: Seq<MatchedPos<D>>,
    pub rhs_positions: Seq<MatchedPos<D>>,
    pub hunks: Seq<H>,
    pub has_byte_changes: Option<(nat, nat)>,
    pub has_syntactic_changes: bool,
}

/// A [`ByteStage`] with its texts and lists as sequences.
pub enum ByteStageModel<D, H> {
    GuessContent,
    GuessLanguage { lhs_src: Seq<char>, rhs_src: Seq<char> },
    Analyse { lhs_src: Seq<char>, rhs_src: Seq<char>, analysis: AnalysisModel<D> },
    MergeHunks {
        lhs_src: Seq<char>,
        rhs_src: Seq<char>,
        found: TextDiffModel<D>,
        num_context_lines: nat,
    },
    Finished(DiffResultModel<D, H>),
}

/// A [`ByteReply`] with its texts and lists as sequences.
pub enum ByteReplyModel<D, H> {
    Content { lhs_kind: FileKindModel, rhs_kind: FileKindModel },
    Language(Option<Seq<char>>),
    Analysis(AnalysisReplyModel<D>),
    Hunks(Seq<H>),
}

impl View for FileContent {
    type V = FileContentModel;

    open spec fn view(&self) -> FileContentModel {
        match *self {
            FileContent::Text(text) => FileContentModel::Text(text@),
            FileContent::Binary => FileContentModel::Binary,
        }
    }
}

impl<D, H> View for DiffResult<D, H> {
    type V = DiffResultModel<D, H>;

    open spec fn view(&self) -> DiffResultModel<D, H> {
        DiffResultModel {
            extra_info: crate::format::optional_text(self.extra_info),
            display_path: self.display_path@,
            file_format: self.file_format@,
            lhs_src: self.lhs_src@,
            rhs_src: self.rhs_src@,
            lhs_positions: self.lhs_positions@,
            rhs_positions: self.rhs_positions@,
            hunks: self.hunks@,
            has_byte_changes: match self.has_byte_changes {
                Some(sizes) => Some((sizes.0 as nat, sizes.1 as nat)),
                None => None,
            },
            has_syntactic_changes: self.has_syntactic_changes,
        }
    }
}

impl<D, H> View for ByteStage<D, H> {
    type V = ByteStageModel<D, H>;

    open spec fn view(&self) -> ByteStageModel<D, H> {
        match *self {
            ByteStage::GuessContent => ByteStageModel::GuessContent,
            ByteStage::GuessLanguage { lhs_src, rhs_src } => ByteStageModel::GuessLanguage {
                lhs_src: lhs_src@,
                rhs_src: rhs_src@,
            },
            ByteStage::Analyse { lhs_src, rhs_src, analysis } => ByteStageModel::Analyse {
                lhs_src: lhs_src@,
                rhs_src: rhs_src@,
                analysis: analysis@,
            },
            ByteStage::MergeHunks { lhs_src, rhs_src, found, num_context_lines } =>
                ByteStageModel::MergeHunks {
                lhs_src: lhs_src@,
                rhs_src: rhs_src@,
                found: found@,
                num_context_lines: num_context_lines as nat,
            },
            ByteStage::Finished(result) => ByteStageModel::Finished(result@),
        }
    }
}

impl<D, H> View for ByteReply<D, H> {
    type V = ByteReplyModel<D, H>;

    open spec fn view(&self) -> ByteReplyModel<D, H> {
        match *self {
            ByteReply::Content { lhs_kind, rhs_kind } => ByteReplyModel::Content {
                lhs_kind: lhs_kind@,
                rhs_kind: rhs_kind@,
            },
            ByteReply::Language(language) => ByteReplyModel::Language(
                crate::format::optional_language(language),
            ),
            ByteReply::Analysis(reply) => ByteReplyModel::Analysis(reply@),
            ByteReply::Hunks(hunks) => ByteReplyModel::Hunks(hunks@),
        }
    }
}

/// The sizes of two sides of raw bytes, where they differ.
pub open spec fn raw_byte_changes(lhs: Seq<u8>, rhs: Seq<u8>) -> Option<(nat, nat)> {
    if lhs == rhs {
        None
    } else {
        Some((lhs.len(), rhs.len()))
    }
}

/// The sizes of two texts in bytes, where the texts differ.
pub open spec fn text_byte_changes(lhs: Seq<char>, rhs: Seq<char>) -> Option<(nat, nat)> {
    if lhs == rhs {
        None
    } else {
        Some((vstd::utf8::encode_utf8(lhs).len(), vstd::utf8::encode_utf8(rhs).len()))
    }
}

impl<D, H> DiffResultModel<D, H> {
    /// The result for a file with a binary side.
    pub open spec fn binary<'a>(input: DiffInput<'a>) -> Self {
        DiffResultModel {
            extra_info: None,
            display_path: input.display_path@,
            file_format: FileFormatModel::Binary,
            lhs_src: FileContentModel::Binary,
            rhs_src: FileContentModel::Binary,
            lhs_positions: Seq::empty(),
            rhs_positions: Seq::empty(),
            hunks: Seq::empty(),
            has_byte_changes: raw_byte_changes(input.lhs_bytes@, input.rhs_bytes@),
            has_syntactic_changes: false,
        }
    }

    /// The result for a file whose text is the same on both sides. It carries no
    /// text.
    pub open spec fn unchanged(display_path: Seq<char>, language: Option<Seq<char>>) -> Self {
        DiffResultModel {
            extra_info: None,
            display_path,
            file_format: FileFormatModel::of_language(language),
            lhs_src: FileContentModel::Text(Seq::empty()),
            rhs_src: FileContentModel::Text(Seq::empty()),
            lhs_positions: Seq::empty(),
            rhs_positions: Seq::empty(),
            hunks: Seq::empty(),
            has_byte_changes: None,
            has_syntactic_changes: false,
        }
    }

    /// The result where only whether something changed was asked.
    pub open spec fn checked(
        display_path: Seq<char>,
        file_format: FileFormatModel,
        lhs_src: Seq<char>,
        rhs_src: Seq<char>,
        has_syntactic_changes: bool,
    ) -> Self {
        DiffResultModel {
            extra_info: None,
            display_path,
            file_format,
            lhs_src: FileContentModel::Text(lhs_src),
            rhs_src: FileContentModel::Text(rhs_src),
            lhs_positions: Seq::empty(),
            rhs_positions: Seq::empty(),
            hunks: Seq::empty(),
            has_byte_changes: text_byte_changes(lhs_src, rhs_src),
            has_syntactic_changes,
        }
    }

    /// The result with the hunks of a comparison.
    pub open spec fn with_hunks(
        display_path: Seq<char>,
        lhs_src: Seq<char>,
        rhs_src: Seq<char>,
        found: TextDiffModel<D>,
        hunks: Seq<H>,
    ) -> Self {
        DiffResultModel {
            extra_info: None,
            display_path,
            file_format: found.file_format,
            lhs_src: FileContentModel::Text(lhs_src),
            rhs_src: FileContentModel::Text(rhs_src),
            lhs_positions: found.lhs_positions,
            rhs_positions: found.rhs_positions,
            hunks,
            has_byte_changes: text_byte_changes(lhs_src, rhs_src),
            has_syntactic_changes: hunks.len() > 0,
        }
    }
}

impl<D, H> ByteStageModel<D, H> {
    /// How a diff goes on once the content of both sides is known.
    pub open spec fn after_content<'a>(
        input: DiffInput<'a>,
        lhs: FileKindModel,
        rhs: FileKindModel,
    ) -> Self {
        match crate::content::compared_texts(lhs, rhs, input.options.strip_cr) {
            Some(texts) => ByteStageModel::GuessLanguage { lhs_src: texts.0, rhs_src: texts.1 },
            None => ByteStageModel::Finished(DiffResultModel::binary(input)),
        }
    }

    /// How a diff goes on when the comparison of the texts has come to a stage.
    pub open spec fn with_analysis(
        display_path: Seq<char>,
        display_options: DisplayOptions,
        lhs_src: Seq<char>,
        rhs_src: Seq<char>,
        analysis: AnalysisModel<D>,
    ) -> Self {
        match analysis {
            AnalysisModel::Finished(OutcomeModel::Positions(found)) => ByteStageModel::MergeHunks {
                lhs_src,
                rhs_src,
                found,
                num_context_lines: display_options.num_context_lines as nat,
            },
            AnalysisModel::Finished(OutcomeModel::TextOnly { file_format }) =>
                ByteStageModel::Finished(
                DiffResultModel::checked(
                    display_path,
                    file_format,
                    lhs_src,
                    rhs_src,
                    lhs_src != rhs_src,
                ),
            ),
            AnalysisModel::Finished(OutcomeModel::SyntaxOnly { language, changed }) =>
                ByteStageModel::Finished(
                DiffResultModel::checked(
                    display_path,
                    FileFormatModel::SupportedLanguage(language),
                    lhs_src,
                    rhs_src,
                    changed,
                ),
            ),
            _ => ByteStageModel::Analyse { lhs_src, rhs_src, analysis },
        }
    }

    /// How a diff goes on once the language is guessed.
    pub open spec fn after_language<'a>(
        input: DiffInput<'a>,
        display_options: DisplayOptions,
        lhs_src: Seq<char>,
        rhs_src: Seq<char>,
        language: Option<Seq<char>>,
    ) -> Self {
        if lhs_src == rhs_src {
            ByteStageModel::Finished(DiffResultModel::unchanged(input.display_path@, language))
        } else {
            Self::with_analysis(
                input.display_path@,
                display_options,
                lhs_src,
                rhs_src,
                AnalysisModel::start(language, input.rules(input.options.check_only)),
            )
        }
    }

    /// How a diff goes on after a reply. A reply to something that was not asked
    /// changes nothing.
    pub open spec fn next<'a>(
        self,
        input: DiffInput<'a>,
        display_options: DisplayOptions,
        reply: ByteReplyModel<D, H>,
    ) -> Self {
        match (self, reply) {
            (
                ByteStageModel::GuessContent,
                ByteReplyModel::Content { lhs_kind, rhs_kind },
            ) => Self::after_content(input, lhs_kind, rhs_kind),
            (
                ByteStageModel::GuessLanguage { lhs_src, rhs_src },
                ByteReplyModel::Language(language),
            ) => Self::after_language(input, display_options, lhs_src, rhs_src, language),
            (
                ByteStageModel::Analyse { lhs_src, rhs_src, analysis },
                ByteReplyModel::Analysis(reply),
            ) => Self::with_analysis(
                input.display_path@,
                display_options,
                lhs_src,
                rhs_src,
                analysis.next(input.rules(input.options.check_only), reply),
            ),
            (
                ByteStageModel::MergeHunks { lhs_src, rhs_src, found, .. },
                ByteReplyModel::Hunks(hunks),
            ) => ByteStageModel::Finished(
                DiffResultModel::with_hunks(input.display_path@, lhs_src, rhs_src, found, hunks),
            ),
            _ => self,
        }
    }
}

/// Whether two slices hold the same bytes.
fn same_bytes(lhs: &[u8], rhs: &[u8]) -> (r: bool)
    ensures
        r == (lhs@ == rhs@),
{
    if lhs.len() != rhs.len() {
        return false;
    }
    let mut index: usize = 0;
    while index < lhs.len()
        invariant
            lhs@.len() == rhs@.len(),
            index <= lhs@.len(),
            forall|i: int| 0 <= i < index ==> lhs@[i] == rhs@[i],
        decreases lhs@.len() - index,
    {
        if lhs[index] != rhs[index] {
            return false;
        }
        index = index + 1;
    }
    proof {
        assert(lhs@ =~= rhs@);
    }
    true
}

/// The sizes of a result, as mathematical numbers.
spec fn sizes_of(sizes: Option<(usize, usize)>) -> Option<(nat, nat)> {
    match sizes {
        Some(sizes) => Some((sizes.0 as nat, sizes.1 as nat)),
        None => None,
    }
}

fn byte_changes(lhs_src: &String, rhs_src: &String) -> (r: Option<(usize, usize)>)
    ensures
        sizes_of(r) == text_byte_changes(lhs_src@, rhs_src@),
{
    if *lhs_src == *rhs_src {
        None
    } else {
        Some((lhs_src.as_str().as_bytes().len(), rhs_src.as_str().as_bytes().len()))
    }
}

/// Begins a diff whose result is to be written as JSON.
pub fn diff_bytes_json<'a, D, H>(
    request: DiffRequest<'a>,
    diff_options: DiffOptions,
    display_options: DisplayOptions,
    keep_unchanged: bool,
) -> (r: ByteDiff<'a, D, H>)
    ensures
        r.input == DiffInput::of_request(request, diff_options, keep_unchanged),
        r.display_options == display_options,
        r.stage@ == ByteStageModel::<D, H>::GuessContent,
{
    ByteDiff {
        input: DiffInput::new(request, diff_options, keep_unchanged),
        display_options,
        stage: ByteStage::GuessContent,
    }
}

/// Goes on once the content of both sides is known: of a file with a binary side
/// only the bytes are compared.
pub fn diff_bytes<'a, D, H>(
    input: &DiffInput<'a>,
    lhs: ProbableFileKind,
    rhs: ProbableFileKind,
) -> (r: ByteStage<D, H>)
    ensures
        r@ == ByteStageModel::<D, H>::after_content(*input, lhs@, rhs@),
{
    match prepare_sources(lhs, rhs, input.options.strip_cr) {
        None => {
            let has_byte_changes: Option<(usize, usize)> = if same_bytes(
                input.lhs_bytes,
                input.rhs_bytes,
            ) {
                None
            } else {
                Some((input.lhs_bytes.len(), input.rhs_bytes.len()))
            };
            ByteStage::Finished(
                DiffResult {
                    extra_info: None,
                    display_path: input.display_path.to_owned(),
                    file_format: FileFormat::Binary,
                    lhs_src: FileContent::Binary,
                    rhs_src: FileContent::Binary,
                    lhs_positions: Vec::new(),
                    rhs_positions: Vec::new(),
                    hunks: Vec::new(),
                    has_byte_changes,
                    has_syntactic_changes: false,
                },
            )
        },
        Some((lhs_src, rhs_src)) => ByteStage::GuessLanguage { lhs_src, rhs_src },
    }
}

/// The result where only whether something changed was asked, and that shows in
/// the text.
pub fn check_only_text<D, H>(
    file_format: &FileFormat,
    display_path: &str,
    lhs_src: &str,
    rhs_src: &str,
) -> (r: DiffResult<D, H>)
    ensures
        r@ == DiffResultModel::<D, H>::checked(
            display_path@,
            file_format@,
            lhs_src@,
            rhs_src@,
            lhs_src@ != rhs_src@,
        ),
{
    let lhs_text = lhs_src.to_owned();
    let rhs_text = rhs_src.to_owned();
    let has_byte_changes = byte_changes(&lhs_text, &rhs_text);
    let has_syntactic_changes = !(lhs_text == rhs_text);
    DiffResult {
        display_path: display_path.to_owned(),
        extra_info: None,
        file_format: file_format.clone(),
        lhs_src: FileContent::Text(lhs_text),
        rhs_src: FileContent::Text(rhs_text),
        lhs_positions: Vec::new(),
        rhs_positions: Vec::new(),
        hunks: Vec::new(),
        has_byte_changes,
        has_syntactic_changes,
    }
}

fn with_analysis<D, H>(
    display_path: &str,
    display_options: &DisplayOptions,
    lhs_src: String,
    rhs_src: String,
    analysis: Analysis<D>,
) -> (r: ByteStage<D, H>)
    ensures
        r@ == ByteStageModel::<D, H>::with_analysis(
            display_path@,
            *display_options,
            lhs_src@,
            rhs_src@,
            analysis@,
        ),
{
    match analysis {
        Analysis::Finished(Outcome::Positions(found)) => ByteStage::MergeHunks {
            lhs_src,
            rhs_src,
            found,
            num_context_lines: display_options.num_context_lines as usize,
        },
        Analysis::Finished(Outcome::TextOnly { file_format }) => ByteStage::Finished(
            check_only_text(&file_format, display_path, lhs_src.as_str(), rhs_src.as_str()),
        ),
        Analysis::Finished(Outcome::SyntaxOnly { language, changed }) => {
            let has_byte_changes = byte_changes(&lhs_src, &rhs_src);
            ByteStage::Finished(
                DiffResult {
                    extra_info: None,
                    display_path: display_path.to_owned(),
                    file_format: FileFormat::SupportedLanguage(language),
                    lhs_src: FileContent::Text(lhs_src),
                    rhs_src: FileContent::Text(rhs_src),
                    lhs_positions: Vec::new(),
                    rhs_positions: Vec::new(),
                    hunks: Vec::new(),
                    has_byte_changes,
                    has_syntactic_changes: changed,
                },
            )
        },
        analysis => ByteStage::Analyse { lhs_src, rhs_src, analysis },
    }
}

/// Goes on once the language is guessed. Texts that are the same are not
/// compared.
pub fn diff_file_content<'a, D, H>(
    input: &DiffInput<'a>,
    display_options: &DisplayOptions,
    lhs_src: String,
    rhs_src: String,
    language: Option<Language>,
) -> (r: ByteStage<D, H>)
    ensures
        r@ == ByteStageModel::<D, H>::after_language(
            *input,
            *display_options,
            lhs_src@,
            rhs_src@,
            crate::format::optional_language(language),
        ),
{
    if lhs_src == rhs_src {
        return ByteStage::Finished(
            DiffResult {
                extra_info: None,
                display_path: input.display_path.to_owned(),
                file_format: file_format_for_language(language),
                lhs_src: FileContent::Text(String::new()),
                rhs_src: FileContent::Text(String::new()),
                lhs_positions: Vec::new(),
                rhs_positions: Vec::new(),
                hunks: Vec::new(),
                has_byte_changes: None,
                has_syntactic_changes: false,
            },
        );
    }
    let mut phases: Vec<Phase> = Vec::new();
    let analysis = text_diff_positions(
        language,
        input.analysis_rules(input.options.check_only),
        &mut phases,
    );
    with_analysis(input.display_path, display_options, lhs_src, rhs_src, analysis)
}

impl<'a, D, H> ByteDiff<'a, D, H> {
    /// Goes on after a reply.
    pub fn step(self, reply: ByteReply<D, H>) -> (r: Self)
        ensures
            r.input == self.input,
            r.display_options == self.display_options,
            r.stage@ == self.stage@.next(self.input, self.display_options, reply@),
    {
        let ByteDiff { input, display_options, stage } = self;
        let next = match (stage, reply) {
            (ByteStage::GuessContent, ByteReply::Content { lhs_kind, rhs_kind }) => {
                diff_bytes(&input, lhs_kind, rhs_kind)
            },
            (ByteStage::GuessLanguage { lhs_src, rhs_src }, ByteReply::Language(language)) => {
                diff_file_content(&input, &display_options, lhs_src, rhs_src, language)
            },
            (
                ByteStage::Analyse { lhs_src, rhs_src, analysis },
                ByteReply::Analysis(reply),
            ) => {
                let mut phases: Vec<Phase> = Vec::new();
                let analysis = analysis.step(
                    input.analysis_rules(input.options.check_only),
                    reply,
                    &mut phases,
                );
                with_analysis(input.display_path, &display_options, lhs_src, rhs_src, analysis)
            },
            (
                ByteStage::MergeHunks { lhs_src, rhs_src, found, .. },
                ByteReply::Hunks(hunks),
            ) => {
                let has_syntactic_changes = !hunks.is_empty();
                let has_byte_changes = byte_changes(&lhs_src, &rhs_src);
                ByteStage::Finished(
                    DiffResult {
                        extra_info: None,
                        display_path: input.display_path.to_owned(),
                        file_format: found.file_format,
                        lhs_src: FileContent::Text(lhs_src),
                        rhs_src: FileContent::Text(rhs_src),
                        lhs_positions: found.lhs_positions,
                        rhs_positions: found.rhs_positions,
                        hunks,
                        has_byte_changes,
                        has_syntactic_changes,
                    },
                )
            },
            (unanswered, _) => unanswered,
        };
        ByteDiff { input, display_options, stage: next }
    }
}

/// What the program around a diff answers, whatever is asked: one set of guesses,
/// parsers and matchers.
#[verifier::reject_recursive_types(D)]
pub struct ByteAnswers<D, H> {
    /// What the bytes of a file look like.
    pub content: spec_fn(Seq<u8>, FileArgument) -> FileKindModel,
    /// The language by a displayed path and a text.
    pub language: spec_fn(Seq<char>, Seq<char>) -> Option<Seq<char>>,
    /// The parsers and matchers under the options of a diff.
    pub analysis: spec_fn(DiffOptions) -> Answers<D>,
    /// The merged hunks of the positions in two texts, for a number of lines of
    /// context.
    pub hunks: spec_fn(TextDiffModel<D>, Seq<char>, Seq<char>, nat) -> Seq<H>,
}

impl<D, H> ByteAnswers<D, H> {
    /// The texts that are compared, where both sides are text.
    pub open spec fn texts<'a>(self, input: DiffInput<'a>) -> Option<(Seq<char>, Seq<char>)> {
        crate::content::compared_texts(
            (self.content)(input.lhs_bytes@, input.lhs_path),
            (self.content)(input.rhs_bytes@, input.rhs_path),
            input.options.strip_cr,
        )
    }

    /// The language of two texts: it goes by the text of the right side, unless
    /// there is no file there.
    pub open spec fn guessed<'a>(
        self,
        input: DiffInput<'a>,
        lhs_src: Seq<char>,
        rhs_src: Seq<char>,
    ) -> Option<Seq<char>> {
        (self.language)(
            input.display_path@,
            crate::content::guess_text(input.rhs_path, lhs_src, rhs_src),
        )
    }

    /// How many sections are left to match in the texts that are compared.
    pub open spec fn sections<'a>(self, input: DiffInput<'a>) -> nat {
        match self.texts(input) {
            Some(texts) => (self.analysis)(input.options).section_count(
                texts,
                self.guessed(input, texts.0, texts.1),
            ),
            None => 0,
        }
    }

    /// The reply to what a diff asks for.
    pub open spec fn reply<'a>(
        self,
        input: DiffInput<'a>,
        stage: ByteStageModel<D, H>,
    ) -> ByteReplyModel<D, H> {
        match stage {
            ByteStageModel::GuessContent => ByteReplyModel::Content {
                lhs_kind: (self.content)(input.lhs_bytes@, input.lhs_path),
                rhs_kind: (self.content)(input.rhs_bytes@, input.rhs_path),
            },
            ByteStageModel::GuessLanguage { lhs_src, rhs_src } => ByteReplyModel::Language(
                self.guessed(input, lhs_src, rhs_src),
            ),
            ByteStageModel::Analyse { lhs_src, rhs_src, analysis } => ByteReplyModel::Analysis(
                (self.analysis)(input.options).reply((lhs_src, rhs_src), analysis),
            ),
            ByteStageModel::MergeHunks { lhs_src, rhs_src, found, num_context_lines } =>
                ByteReplyModel::Hunks((self.hunks)(found, lhs_src, rhs_src, num_context_lines)),
            ByteStageModel::Finished(_) => ByteReplyModel::Language(None),
        }
    }

    /// Where a diff stands after some replies.
    pub open spec fn run<'a>(
        self,
        input: DiffInput<'a>,
        display_options: DisplayOptions,
        stage: ByteStageModel<D, H>,
        steps: nat,
    ) -> ByteStageModel<D, H>
        decreases steps,
    {
        if steps == 0 {
            stage
        } else {
            self.run(
                input,
                display_options,
                stage.next(input, display_options, self.reply(input, stage)),
                (steps - 1) as nat,
            )
        }
    }

    /// What the outcome of a comparison of two texts comes to.
    pub open spec fn compared<'a>(
        self,
        input: DiffInput<'a>,
        display_options: DisplayOptions,
        lhs_src: Seq<char>,
        rhs_src: Seq<char>,
        outcome: OutcomeModel<D>,
    ) -> DiffResultModel<D, H> {
        match outcome {
            OutcomeModel::Positions(found) => DiffResultModel::with_hunks(
                input.display_path@,
                lhs_src,
                rhs_src,
                found,
                (self.hunks)(found, lhs_src, rhs_src, display_options.num_context_lines as nat),
            ),
            OutcomeModel::TextOnly { file_format } => DiffResultModel::checked(
                input.display_path@,
                file_format,
                lhs_src,
                rhs_src,
                lhs_src != rhs_src,
            ),
            OutcomeModel::SyntaxOnly { language, changed } => DiffResultModel::checked(
                input.display_path@,
                FileFormatModel::SupportedLanguage(language),
                lhs_src,
                rhs_src,
                changed,
            ),
        }
    }

    /// What a diff comes to. Of a file with a binary side only the bytes are
    /// compared. The same text on both sides is unchanged. Else the texts are
    /// compared.
    pub open spec fn result<'a>(
        self,
        input: DiffInput<'a>,
        display_options: DisplayOptions,
    ) -> DiffResultModel<D, H> {
        match self.texts(input) {
            None => DiffResultModel::binary(input),
            Some(texts) => if texts.0 == texts.1 {
                DiffResultModel::unchanged(
                    input.display_path@,
                    self.guessed(input, texts.0, texts.1),
                )
            } else {
                self.compared(
                    input,
                    display_options,
                    texts.0,
                    texts.1,
                    (self.analysis)(input.options).outcome(
                        texts,
                        input.rules(input.options.check_only),
                        self.guessed(input, texts.0, texts.1),
                    ),
                )
            },
        }
    }

    proof fn lemma_finished_stays<'a>(
        self,
        input: DiffInput<'a>,
        display_options: DisplayOptions,
        result: DiffResultModel<D, H>,
        steps: nat,
    )
        ensures
            self.run(input, display_options, ByteStageModel::Finished(result), steps)
                == ByteStageModel::<D, H>::Finished(result),
        decreases steps,
    {
        if steps > 0 {
            self.lemma_finished_stays(input, display_options, result, (steps - 1) as nat);
        }
    }

    /// A diff follows the comparison of its texts to its end.
    proof fn lemma_follows<'a>(
        self,
        input: DiffInput<'a>,
        display_options: DisplayOptions,
        lhs_src: Seq<char>,
        rhs_src: Seq<char>,
        analysis: AnalysisModel<D>,
        outcome: OutcomeModel<D>,
        needed: nat,
        steps: nat,
    )
        requires
            (self.analysis)(input.options).run(
                (lhs_src, rhs_src),
                input.rules(input.options.check_only),
                analysis,
                needed,
            )
                == AnalysisModel::Finished(outcome),
            steps >= needed + 1,
        ensures
            self.run(
                input,
                display_options,
                ByteStageModel::with_analysis(
                    input.display_path@,
                    display_options,
                    lhs_src,
                    rhs_src,
                    analysis,
                ),
                steps,
            ) == ByteStageModel::<D, H>::Finished(
                self.compared(input, display_options, lhs_src, rhs_src, outcome),
            ),
        decreases needed,
    {
        let rules = input.rules(input.options.check_only);
        let answers = (self.analysis)(input.options);
        let stage = ByteStageModel::<D, H>::with_analysis(
            input.display_path@,
            display_options,
            lhs_src,
            rhs_src,
            analysis,
        );
        let after = stage.next(input, display_options, self.reply(input, stage));
        assert(self.run(input, display_options, stage, steps) == self.run(
            input,
            display_options,
            after,
            (steps - 1) as nat,
        ));
        match analysis {
            AnalysisModel::Finished(ended) => {
                answers.lemma_run_finished((lhs_src, rhs_src), rules, ended, needed);
                self.lemma_finished_stays(
                    input,
                    display_options,
                    self.compared(input, display_options, lhs_src, rhs_src, outcome),
                    (steps - 1) as nat,
                );
            },
            _ => {
                if needed > 0 {
                    let next = analysis.next(rules, answers.reply((lhs_src, rhs_src), analysis));
                    self.lemma_follows(
                        input,
                        display_options,
                        lhs_src,
                        rhs_src,
                        next,
                        outcome,
                        (needed - 1) as nat,
                        (steps - 1) as nat,
                    );
                }
            },
        }
    }

    /// However the program around it answers, a diff ends after at most ten
    /// replies and one for each section, and it ends with the result that the
    /// answers come to.
    pub proof fn law_byte_diff_ends<'a>(
        self,
        input: DiffInput<'a>,
        display_options: DisplayOptions,
        steps: nat,
    )
        requires
            steps >= 10 + self.sections(input),
        ensures
            self.run(input, display_options, ByteStageModel::GuessContent, steps)
                == ByteStageModel::<D, H>::Finished(self.result(input, display_options)),
    {
        let start = ByteStageModel::<D, H>::GuessContent;
        let second = start.next(input, display_options, self.reply(input, start));
        let third = second.next(input, display_options, self.reply(input, second));
        let rest = (steps - 2) as nat;
        assert(self.run(input, display_options, start, steps) == self.run(
            input,
            display_options,
            second,
            (steps - 1) as nat,
        ));
        assert(self.run(input, display_options, second, (steps - 1) as nat) == self.run(
            input,
            display_options,
            third,
            rest,
        ));
        match self.texts(input) {
            None => {
                self.lemma_finished_stays(
                    input,
                    display_options,
                    self.result(input, display_options),
                    rest,
                );
            },
            Some(texts) => {
                if texts.0 == texts.1 {
                    self.lemma_finished_stays(
                        input,
                        display_options,
                        self.result(input, display_options),
                        rest,
                    );
                } else {
                    let rules = input.rules(input.options.check_only);
                    let answers = (self.analysis)(input.options);
                    let language = self.guessed(input, texts.0, texts.1);
                    let needed = (7 + self.sections(input)) as nat;
                    answers.law_analysis_ends(texts, rules, language, needed);
                    self.lemma_follows(
                        input,
                        display_options,
                        texts.0,
                        texts.1,
                        AnalysisModel::start(language, rules),
                        answers.outcome(texts, rules, language),
                        needed,
                        rest,
                    );
                }
            },
        }
    }

    /// What every result keeps: where no byte changed, no syntax did; a check
    /// alone finds no positions and makes no hunks; and there is no extra
    /// information.
    pub proof fn law_result_shape<'a>(
        self,
        input: DiffInput<'a>,
        display_options: DisplayOptions,
    )
        ensures
            ({
                let result = self.result(input, display_options);
                &&& result.has_byte_changes is None ==> !result.has_syntactic_changes
                &&& input.options.check_only ==> result.hunks.len() == 0
                    && result.lhs_positions.len() == 0 && result.rhs_positions.len() == 0
                &&& !input.options.check_only ==> (result.has_syntactic_changes <==>
                    result.hunks.len() > 0)
                &&& result.extra_info is None
                &&& result.display_path == input.display_path@
            }),
    {
    }

    /// Sizes are reported where the two sides differ anywhere and only there: by
    /// their bytes for a file with a binary side, else by the texts that are
    /// compared.
    pub proof fn law_byte_changes<'a>(
        self,
        input: DiffInput<'a>,
        display_options: DisplayOptions,
    )
        ensures
            ({
                let sizes = self.result(input, display_options).has_byte_changes;
                let lhs = input.lhs_bytes@;
                let rhs = input.rhs_bytes@;
                let same = lhs.len() == rhs.len() && forall|i: int|
                    0 <= i < lhs.len() ==> #[trigger] lhs[i] == rhs[i];
                match self.texts(input) {
                    None => sizes == (if same {
                        None
                    } else {
                        Some((lhs.len(), rhs.len()))
                    }),
                    Some(texts) => sizes == (if texts.0 == texts.1 {
                        None
                    } else {
                        Some(
                            (
                                vstd::utf8::encode_utf8(texts.0).len(),
                                vstd::utf8::encode_utf8(texts.1).len(),
                            ),
                        )
                    }),
                }
            }),
    {
        let lhs = input.lhs_bytes@;
        let rhs = input.rhs_bytes@;
        if lhs.len() == rhs.len() && forall|i: int|
            0 <= i < lhs.len() ==> #[trigger] lhs[i] == rhs[i] {
            assert(lhs =~= rhs);
        }
    }

    /// A diff whose texts differ returns the positions that comparing them found,
    /// each on its own side, for a language as for plain text, and the format under
    /// which they were found.
    pub proof fn law_result_of_comparison<'a>(
        self,
        input: DiffInput<'a>,
        display_options: DisplayOptions,
    )
        requires
            self.texts(input) matches Some(texts) && texts.0 != texts.1,
        ensures
            ({
                let texts = self.texts(input)->Some_0;
                let language = (self.language)(
                    input.display_path@,
                    if input.rhs_path is DevNull {
                        texts.0
                    } else {
                        texts.1
                    },
                );
                let rules = crate::analysis::AnalysisRules {
                    check_only: input.options.check_only,
                    ignore_comments: input.options.ignore_comments,
                    keep_unchanged: input.keep_unchanged,
                };
                let result = self.result(input, display_options);
                &&& result.lhs_src == FileContentModel::Text(texts.0)
                &&& result.rhs_src == FileContentModel::Text(texts.1)
                &&& match (self.analysis)(input.options).outcome(texts, rules, language) {
                    OutcomeModel::Positions(found) => {
                        &&& result.file_format == found.file_format
                        &&& result.lhs_positions == found.lhs_positions
                        &&& result.rhs_positions == found.rhs_positions
                        &&& result.hunks == (self.hunks)(
                            found,
                            texts.0,
                            texts.1,
                            display_options.num_context_lines as nat,
                        )
                        &&& result.has_syntactic_changes == (result.hunks.len() != 0)
                    },
                    OutcomeModel::TextOnly { file_format } => result.file_format == file_format
                        && result.has_syntactic_changes,
                    OutcomeModel::SyntaxOnly { language, changed } => result.file_format
                        == FileFormatModel::SupportedLanguage(language)
                        && result.has_syntactic_changes == changed,
                }
            }),
    {
    }
}

/// Of a file with a binary side, whichever side that is, only the bytes are
/// compared: their sizes are reported unless both sides have the same length and
/// the same byte at every place. Two texts go on to the guess of their language,
/// each prepared and on its own side.
pub proof fn law_binary_compared_by_bytes<'a, D, H>(
    input: DiffInput<'a>,
    display_options: DisplayOptions,
    lhs_kind: FileKindModel,
    rhs_kind: FileKindModel,
)
    ensures
        ({
            let next = ByteStageModel::<D, H>::GuessContent.next(
                input,
                display_options,
                ByteReplyModel::Content { lhs_kind, rhs_kind },
            );
            let lhs = input.lhs_bytes@;
            let rhs = input.rhs_bytes@;
            let same = lhs.len() == rhs.len() && forall|i: int|
                0 <= i < lhs.len() ==> #[trigger] lhs[i] == rhs[i];
            &&& ByteStageModel::<D, H>::after_content(input, lhs_kind, rhs_kind) == next
            &&& lhs_kind is Binary || rhs_kind is Binary ==> next == ByteStageModel::<
                D,
                H,
            >::Finished(
                DiffResultModel {
                    extra_info: None,
                    display_path: input.display_path@,
                    file_format: FileFormatModel::Binary,
                    lhs_src: FileContentModel::Binary,
                    rhs_src: FileContentModel::Binary,
                    lhs_positions: Seq::empty(),
                    rhs_positions: Seq::empty(),
                    hunks: Seq::empty(),
                    has_byte_changes: if same {
                        None
                    } else {
                        Some((lhs.len(), rhs.len()))
                    },
                    has_syntactic_changes: false,
                },
            )
            &&& lhs_kind is Text && rhs_kind is Text ==> next == (
            ByteStageModel::<D, H>::GuessLanguage {
                lhs_src: crate::text::normalized(lhs_kind->Text_0, input.options.strip_cr),
                rhs_src: crate::text::normalized(rhs_kind->Text_0, input.options.strip_cr),
            })
        }),
{
    let lhs = input.lhs_bytes@;
    let rhs = input.rhs_bytes@;
    if lhs.len() == rhs.len() && forall|i: int| 0 <= i < lhs.len() ==> #[trigger] lhs[i] == rhs[i] {
        assert(lhs =~= rhs);
    }
}

/// Texts that are the same, character by character, need no comparison, and their
/// result has no text, no position, no hunk and no change. Texts that differ
/// anywhere are compared, unless only a check is asked for and there is no
/// language: then they are known to differ.
pub proof fn law_differing_texts_compared<'a, D, H>(
    input: DiffInput<'a>,
    display_options: DisplayOptions,
    lhs_src: Seq<char>,
    rhs_src: Seq<char>,
    language: Option<Seq<char>>,
)
    ensures
        ({
            let next = (ByteStageModel::<D, H>::GuessLanguage { lhs_src, rhs_src }).next(
                input,
                display_options,
                ByteReplyModel::Language(language),
            );
            let same = lhs_src.len() == rhs_src.len() && forall|i: int|
                0 <= i < lhs_src.len() ==> #[trigger] lhs_src[i] == rhs_src[i];
            &&& ByteStageModel::<D, H>::after_language(
                input,
                display_options,
                lhs_src,
                rhs_src,
                language,
            ) == next
            &&& same ==> next == ByteStageModel::<D, H>::Finished(
                DiffResultModel {
                    extra_info: None,
                    display_path: input.display_path@,
                    file_format: match language {
                        Some(name) => FileFormatModel::SupportedLanguage(name),
                        None => FileFormatModel::PlainText,
                    },
                    lhs_src: FileContentModel::Text(Seq::empty()),
                    rhs_src: FileContentModel::Text(Seq::empty()),
                    lhs_positions: Seq::empty(),
                    rhs_positions: Seq::empty(),
                    hunks: Seq::empty(),
                    has_byte_changes: None,
                    has_syntactic_changes: false,
                },
            )
            &&& !same ==> match language {
                Some(name) => next == (ByteStageModel::<D, H>::Analyse {
                    lhs_src,
                    rhs_src,
                    analysis: AnalysisModel::LoadGrammar { language: name },
                }),
                None => if input.options.check_only {
                    next == ByteStageModel::<D, H>::Finished(
                        DiffResultModel {
                            extra_info: None,
                            display_path: input.display_path@,
                            file_format: FileFormatModel::PlainText,
                            lhs_src: FileContentModel::Text(lhs_src),
                            rhs_src: FileContentModel::Text(rhs_src),
                            lhs_positions: Seq::empty(),
                            rhs_positions: Seq::empty(),
                            hunks: Seq::empty(),
                            has_byte_changes: Some(
                                (
                                    vstd::utf8::encode_utf8(lhs_src).len(),
                                    vstd::utf8::encode_utf8(rhs_src).len(),
                                ),
                            ),
                            has_syntactic_changes: true,
                        },
                    )
                } else {
                    next == (ByteStageModel::<D, H>::Analyse {
                        lhs_src,
                        rhs_src,
                        analysis: AnalysisModel::CompareLines {
                            file_format: FileFormatModel::PlainText,
                        },
                    })
                },
            }
        }),
{
    if lhs_src.len() == rhs_src.len() && forall|i: int|
        0 <= i < lhs_src.len() ==> #[trigger] lhs_src[i] == rhs_src[i] {
        assert(lhs_src =~= rhs_src);
    }
}

/// What a check reports: both texts, their sizes in bytes where they differ, and
/// no position and no hunk.
pub proof fn law_check_reports_sizes<D, H>(
    display_path: Seq<char>,
    file_format: FileFormatModel,
    lhs_src: Seq<char>,
    rhs_src: Seq<char>,
    changed: bool,
)
    ensures
        ({
            let result = DiffResultModel::<D, H>::checked(
                display_path,
                file_format,
                lhs_src,
                rhs_src,
                changed,
            );
            &&& result.extra_info is None
            &&& result.display_path == display_path
            &&& result.file_format == file_format
            &&& result.lhs_src == FileContentModel::Text(lhs_src)
            &&& result.rhs_src == FileContentModel::Text(rhs_src)
            &&& result.lhs_positions.len() == 0
            &&& result.rhs_positions.len() == 0
            &&& result.hunks.len() == 0
            &&& lhs_src == rhs_src ==> result.has_byte_changes is None
            &&& lhs_src != rhs_src ==> result.has_byte_changes == Some(
                (
                    vstd::utf8::encode_utf8(lhs_src).len(),
                    vstd::utf8::encode_utf8(rhs_src).len(),
                ),
            )
            &&& result.has_syntactic_changes == changed
        }),
{
}

/// Texts under comparison stay as they are, and the comparison goes on by the
/// options of the diff. A check that ends in the text finds a change where the
/// texts differ, and one that ends in the syntax finds what comparing it told.
pub proof fn law_comparison_carried_on<'a, D, H>(
    input: DiffInput<'a>,
    display_options: DisplayOptions,
    lhs_src: Seq<char>,
    rhs_src: Seq<char>,
    analysis: AnalysisModel<D>,
    reply: AnalysisReplyModel<D>,
)
    ensures
        ({
            let rules = crate::analysis::AnalysisRules {
                check_only: input.options.check_only,
                ignore_comments: input.options.ignore_comments,
                keep_unchanged: input.keep_unchanged,
            };
            let next = (ByteStageModel::<D, H>::Analyse { lhs_src, rhs_src, analysis }).next(
                input,
                display_options,
                ByteReplyModel::Analysis(reply),
            );
            match analysis.next(rules, reply) {
                AnalysisModel::Finished(OutcomeModel::Positions(found)) => next == (
                ByteStageModel::<D, H>::MergeHunks {
                    lhs_src,
                    rhs_src,
                    found,
                    num_context_lines: display_options.num_context_lines as nat,
                }),
                AnalysisModel::Finished(OutcomeModel::TextOnly { file_format }) =>
                    next matches ByteStageModel::Finished(result) && {
                    &&& result.file_format == file_format
                    &&& result.has_syntactic_changes == (lhs_src != rhs_src)
                    &&& result == DiffResultModel::<D, H>::checked(
                        input.display_path@,
                        file_format,
                        lhs_src,
                        rhs_src,
                        lhs_src != rhs_src,
                    )
                },
                AnalysisModel::Finished(OutcomeModel::SyntaxOnly { language, changed }) =>
                    next matches ByteStageModel::Finished(result) && {
                    &&& result.file_format == FileFormatModel::SupportedLanguage(language)
                    &&& result.has_syntactic_changes == changed
                    &&& result == DiffResultModel::<D, H>::checked(
                        input.display_path@,
                        FileFormatModel::SupportedLanguage(language),
                        lhs_src,
                        rhs_src,
                        changed,
                    )
                },
                later => next == (ByteStageModel::<D, H>::Analyse {
                    lhs_src,
                    rhs_src,
                    analysis: later,
                }),
            }
        }),
{
}

/// A diff that compared its texts returns what the comparison found, whatever the
/// format: the format, both texts and the positions, each on its own side, with the
/// hunks that were made of them. Its syntax has changed exactly where there is a
/// hunk, and its sizes are those of the two texts where these differ.
pub proof fn law_findings_returned<'a, D, H>(
    input: DiffInput<'a>,
    display_options: DisplayOptions,
    lhs_src: Seq<char>,
    rhs_src: Seq<char>,
    found: TextDiffModel<D>,
    num_context_lines: nat,
    hunks: Seq<H>,
)
    ensures
        (ByteStageModel::<D, H>::MergeHunks { lhs_src, rhs_src, found, num_context_lines }).next(
            input,
            display_options,
            ByteReplyModel::Hunks(hunks),
        ) == ByteStageModel::<D, H>::Finished(
            DiffResultModel {
                extra_info: None,
                display_path: input.display_path@,
                file_format: found.file_format,
                lhs_src: FileContentModel::Text(lhs_src),
                rhs_src: FileContentModel::Text(rhs_src),
                lhs_positions: found.lhs_positions,
                rhs_positions: found.rhs_positions,
                hunks,
                has_byte_changes: if lhs_src == rhs_src {
                    None
                } else {
                    Some(
                        (
                            vstd::utf8::encode_utf8(lhs_src).len(),
                            vstd::utf8::encode_utf8(rhs_src).len(),
                        ),
                    )
                },
                has_syntactic_changes: hunks.len() != 0,
            },
        ),
{
}

/// A reply to something that was not asked changes nothing.
pub proof fn law_unasked_reply_ignored<'a, D, H>(
    input: DiffInput<'a>,
    display_options: DisplayOptions,
    stage: ByteStageModel<D, H>,
    reply: ByteReplyModel<D, H>,
)
    requires
        stage is GuessContent ==> !(reply is Content),
        stage is GuessLanguage ==> !(reply is Language),
        stage is Analyse ==> !(reply is Analysis),
        stage is MergeHunks ==> !(reply is Hunks),
    ensures
        stage.next(input, display_options, reply) == stage,
{
}

/// A result is told field by field, each side on its own side.
pub proof fn law_result_view<D, H>(result: DiffResult<D, H>, content: FileContent)
    ensures
        content matches FileContent::Text(text) ==> content@ == FileContentModel::Text(text@),
        content is Binary ==> content@ is Binary,
        result.extra_info matches Some(info) ==> result@.extra_info == Some(info@),
        result.extra_info is None ==> result@.extra_info is None,
        result@.display_path == result.display_path@,
        result@.file_format == result.file_format@,
        result@.lhs_src == result.lhs_src@,
        result@.rhs_src == result.rhs_src@,
        result@.lhs_positions == result.lhs_positions@,
        result@.rhs_positions == result.rhs_positions@,
        result@.hunks == result.hunks@,
        result.has_byte_changes matches Some(sizes) ==> result@.has_byte_changes == Some(
            (sizes.0 as nat, sizes.1 as nat),
        ),
        result.has_byte_changes is None ==> result@.has_byte_changes is None,
        result@.has_syntactic_changes == result.has_syntactic_changes,
{
}

/// What a diff asks for is told as it is asked, each side on its own side.
pub proof fn law_stage_view<D, H>(stage: ByteStage<D, H>)
    ensures
        stage is GuessContent ==> stage@ is GuessContent,
        stage matches ByteStage::GuessLanguage { lhs_src, rhs_src } ==> stage@ == (
        ByteStageModel::<D, H>::GuessLanguage { lhs_src: lhs_src@, rhs_src: rhs_src@ }),
        stage matches ByteStage::Analyse { lhs_src, rhs_src, analysis } ==> stage@ == (
        ByteStageModel::<D, H>::Analyse {
            lhs_src: lhs_src@,
            rhs_src: rhs_src@,
            analysis: analysis@,
        }),
        stage matches ByteStage::MergeHunks { lhs_src, rhs_src, found, num_context_lines }
            ==> stage@ == (ByteStageModel::<D, H>::MergeHunks {
            lhs_src: lhs_src@,
            rhs_src: rhs_src@,
            found: found@,
            num_context_lines: num_context_lines as nat,
        }),
        stage matches ByteStage::Finished(result) ==> stage@ == ByteStageModel::Finished(result@),
{
}

/// A reply is told as it was given, each side on its own side.
pub proof fn law_reply_view<D, H>(reply: ByteReply<D, H>)
    ensures
        reply matches ByteReply::Content { lhs_kind, rhs_kind } ==> reply@ == (
        ByteReplyModel::<D, H>::Content { lhs_kind: lhs_kind@, rhs_kind: rhs_kind@ }),
        reply matches ByteReply::Language(Some(language)) ==> reply@ == ByteReplyModel::<
            D,
            H,
        >::Language(Some(language.name@)),
        reply matches ByteReply::Language(None) ==> reply@ == ByteReplyModel::<D, H>::Language(
            None,
        ),
        reply matches ByteReply::Analysis(inner) ==> reply@ == ByteReplyModel::<D, H>::Analysis(
            inner@,
        ),
        reply matches ByteReply::Hunks(hunks) ==> reply@ == ByteReplyModel::<D, H>::Hunks(hunks@),
{
}

} // verus!
