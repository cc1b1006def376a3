//! The content of the two sides: what a diff starts from, and the texts that are
//! compared.

use vstd::prelude::*;

use crate::analysis::AnalysisRules;
use crate::options::{file_argument_for_side, DiffOptions, DiffRequest, FileArgument};
use crate::text::normalize_source;

verus! {

/// What a diff starts from.
pub struct DiffInput<'a> {
    pub display_path: &'a str,
    pub lhs_path: FileArgument,
    pub rhs_path: FileArgument,
    pub lhs_bytes: &'a [u8],
    pub rhs_bytes: &'a [u8],
    pub options: DiffOptions,
    /// Match everything, also what is plainly unchanged.
    pub keep_unchanged: bool,
}

impl<'a> DiffInput<'a> {
    /// What a diff of a request starts from, under the given options.
    pub open spec fn of_request(
        request: DiffRequest<'a>,
        options: DiffOptions,
        keep_unchanged: bool,
    ) -> DiffInput<'a> {
        DiffInput {
            display_path: request.display_path,
            lhs_path: crate::options::side_argument(
                request.lhs_path,
                request.display_path@,
                request.lhs_bytes@,
            ),
            rhs_path: crate::options::side_argument(
                request.rhs_path,
                request.display_path@,
                request.rhs_bytes@,
            ),
            lhs_bytes: request.lhs_bytes,
            rhs_bytes: request.rhs_bytes,
            options,
            keep_unchanged,
        }
    }

    /// Prepares a diff of a request under the given options.
    pub fn new(request: DiffRequest<'a>, options: DiffOptions, keep_unchanged: bool) -> (r: Self)
        ensures
            r == Self::of_request(request, options, keep_unchanged),
    {
        let lhs_path = file_argument_for_side(
            request.lhs_path,
            request.display_path,
            request.lhs_bytes,
        );
        let rhs_path = file_argument_for_side(
            request.rhs_path,
            request.display_path,
            request.rhs_bytes,
        );
        DiffInput {
            display_path: request.display_path,
            lhs_path,
            rhs_path,
            lhs_bytes: request.lhs_bytes,
            rhs_bytes: request.rhs_bytes,
            options,
            keep_unchanged,
        }
    }

    /// What the comparison of the texts goes by.
    pub open spec fn rules(self, check_only: bool) -> AnalysisRules {
        AnalysisRules {
            check_only,
            ignore_comments: self.options.ignore_comments,
            keep_unchanged: self.keep_unchanged,
        }
    }

    /// What the comparison of the texts goes by.
    pub fn analysis_rules(&self, check_only: bool) -> (r: AnalysisRules)
        ensures
            r == self.rules(check_only),
    {
        AnalysisRules {
            check_only,
            ignore_comments: self.options.ignore_comments,
            keep_unchanged: self.keep_unchanged,
        }
    }
}

/// What the bytes of a file look like.
#[derive(Debug, PartialEq, Eq)]
pub enum ProbableFileKind {
    Text(String),
    Binary,
}

/// A [`ProbableFileKind`] with its text as a sequence of characters.
pub enum FileKindModel {
    Text(Seq<char>),
    Binary,
}

impl View for ProbableFileKind {
    type V = FileKindModel;

    open spec fn view(&self) -> FileKindModel {
        match *self {
            ProbableFileKind::Text(text) => FileKindModel::Text(text@),
            ProbableFileKind::Binary => FileKindModel::Binary,
        }
    }
}

/// The texts that are compared, where both sides are text.
pub open spec fn compared_texts(
    lhs: FileKindModel,
    rhs: FileKindModel,
    strip_cr: bool,
) -> Option<(Seq<char>, Seq<char>)> {
    match (lhs, rhs) {
        (FileKindModel::Text(lhs_text), FileKindModel::Text(rhs_text)) => Some(
            (
                crate::text::normalized(lhs_text, strip_cr),
                crate::text::normalized(rhs_text, strip_cr),
            ),
        ),
        _ => None,
    }
}

/// Prepares the texts of both sides for the comparison. There is nothing to
/// compare where either side is binary.
pub fn prepare_sources(lhs: ProbableFileKind, rhs: ProbableFileKind, strip_cr: bool) -> (r: Option<
    (String, String),
>)
    ensures
        match (r, compared_texts(lhs@, rhs@, strip_cr)) {
            (Some(sources), Some(texts)) => sources.0@ == texts.0 && sources.1@ == texts.1,
            (None, None) => true,
            _ => false,
        },
{
    match (lhs, rhs) {
        (ProbableFileKind::Binary, _) | (_, ProbableFileKind::Binary) => None,
        (ProbableFileKind::Text(lhs_src), ProbableFileKind::Text(rhs_src)) => Some(
            (normalize_source(lhs_src, strip_cr), normalize_source(rhs_src, strip_cr)),
        ),
    }
}

/// The text by which the language is guessed: that of the right side, unless
/// there is no file there.
pub open spec fn guess_text(
    rhs_path: FileArgument,
    lhs_src: Seq<char>,
    rhs_src: Seq<char>,
) -> Seq<char> {
    if rhs_path is DevNull {
        lhs_src
    } else {
        rhs_src
    }
}

/// Chooses the text by which the language is guessed.
pub fn guess_source<'s>(rhs_path: &FileArgument, lhs_src: &'s str, rhs_src: &'s str) -> (r: &'s str)
    ensures
        r@ == guess_text(*rhs_path, lhs_src@, rhs_src@),
{
    match rhs_path {
        FileArgument::DevNull => lhs_src,
        _ => rhs_src,
    }
}

/// What a diff starts from is what was asked for, each side on its own side.
pub proof fn law_input_keeps_sides<'a>(
    request: DiffRequest<'a>,
    options: DiffOptions,
    keep_unchanged: bool,
)
    ensures
        ({
            let input = DiffInput::of_request(request, options, keep_unchanged);
            &&& input.display_path == request.display_path
            &&& input.lhs_bytes == request.lhs_bytes
            &&& input.rhs_bytes == request.rhs_bytes
            &&& input.lhs_path == crate::options::side_argument(
                request.lhs_path,
                request.display_path@,
                request.lhs_bytes@,
            )
            &&& input.rhs_path == crate::options::side_argument(
                request.rhs_path,
                request.display_path@,
                request.rhs_bytes@,
            )
            &&& input.options == options
            &&& input.keep_unchanged == keep_unchanged
        }),
{
}

/// The comparison of the texts goes by the options of the diff, and is a check only
/// where that is asked for.
pub proof fn law_rules_of_options<'a>(input: DiffInput<'a>, check_only: bool)
    ensures
        input.rules(check_only).check_only == check_only,
        input.rules(check_only).ignore_comments == input.options.ignore_comments,
        input.rules(check_only).keep_unchanged == input.keep_unchanged,
{
}

/// Texts are compared where both sides are text and only there, each prepared by
/// itself and kept on its own side.
pub proof fn law_texts_prepared_by_side(lhs: FileKindModel, rhs: FileKindModel, strip_cr: bool)
    ensures
        compared_texts(lhs, rhs, strip_cr) is Some <==> lhs is Text && rhs is Text,
        (lhs is Text && rhs is Text) ==> {
            let texts = compared_texts(lhs, rhs, strip_cr)->Some_0;
            &&& texts.0 == crate::text::normalized(lhs->Text_0, strip_cr)
            &&& texts.1 == crate::text::normalized(rhs->Text_0, strip_cr)
        },
{
}

/// The language goes by the text on the right, whatever is on the left, unless the
/// right side is missing: then it goes by the text on the left alone.
pub proof fn law_language_by_present_side(
    rhs_path: FileArgument,
    lhs_src: Seq<char>,
    rhs_src: Seq<char>,
)
    ensures
        rhs_path is NamedPath ==> guess_text(rhs_path, lhs_src, rhs_src) == rhs_src,
        rhs_path is DevNull ==> guess_text(rhs_path, lhs_src, rhs_src) == lhs_src,
{
}

/// A text is told by its characters.
pub proof fn law_kind_view(kind: ProbableFileKind)
    ensures
        kind matches ProbableFileKind::Text(text) ==> kind@ == FileKindModel::Text(text@),
        kind is Binary ==> kind@ is Binary,
{
}

} // verus!
