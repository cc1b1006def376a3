//! What a diff is asked for: the request, its options, and which file stands on
//! each side.

use std::path::{Path, PathBuf};
use vstd::prelude::*;

use crate::text::parse_usize;

verus! {

/// A borrowed path. It is carried through and never read here.
#[verifier::external_type_specification]
#[verifier::external_body]
pub struct ExPath(std::path::Path);

/// An owned path. It is carried through and never read here.
#[verifier::external_type_specification]
#[verifier::external_body]
pub struct ExPathBuf(std::path::PathBuf);

/// The owned copy that `Path::to_path_buf` makes of a path.
pub uninterp spec fn owned_path(path: &Path) -> PathBuf;

/// `Path::to_path_buf` copies a borrowed path; the copy is fixed by the path.
pub assume_specification[ Path::to_path_buf ](path: &Path) -> (r: PathBuf)
    ensures
        r == owned_path(path),
;

/// The path that `PathBuf::from` makes of a text.
pub uninterp spec fn path_of_text(text: Seq<char>) -> PathBuf;

/// `PathBuf::from`, on a string slice: the path is fixed by the characters of
/// the text.
#[verifier::external_body]
fn path_from_text(text: &str) -> (r: PathBuf)
    ensures
        r == path_of_text(text@),
{
    PathBuf::from(text)
}

/// How many unchanged rows a chunk shows on either side of a change.
pub const SEMANTIC_CONTEXT_LINES: usize = 3;

/// The environment variable that sets how many parse errors are tolerated.
pub const SEMANTIC_PARSE_ERROR_LIMIT_ENV: &'static str = "DFT_PARSE_ERROR_LIMIT";

/// How many parse errors a semantic diff tolerates unless told otherwise.
pub const SEMANTIC_DEFAULT_PARSE_ERROR_LIMIT: usize = 100;

/// The two versions of a file that are compared, and the names they go by.
#[derive(Debug, Clone)]
pub struct DiffRequest<'a> {
    pub display_path: &'a str,
    pub lhs_path: Option<&'a Path>,
    pub rhs_path: Option<&'a Path>,
    pub lhs_bytes: &'a [u8],
    pub rhs_bytes: &'a [u8],
}

impl<'a> DiffRequest<'a> {
    /// The request with its two sides exchanged.
    pub open spec fn exchanged(self) -> DiffRequest<'a> {
        DiffRequest {
            display_path: self.display_path,
            lhs_path: self.rhs_path,
            rhs_path: self.lhs_path,
            lhs_bytes: self.rhs_bytes,
            rhs_bytes: self.lhs_bytes,
        }
    }

    /// Whether there is no file on the left: neither a path nor content.
    pub open spec fn lhs_missing(self) -> bool {
        self.lhs_path is None && self.lhs_bytes@.len() == 0
    }

    /// Whether there is no file on the right: neither a path nor content.
    pub open spec fn rhs_missing(self) -> bool {
        self.rhs_path is None && self.rhs_bytes@.len() == 0
    }
}

/// The file on one side of a diff.
#[derive(Debug, PartialEq, Eq)]
pub enum FileArgument {
    NamedPath(PathBuf),
    DevNull,
}

/// Options that change what a diff finds.
#[derive(Debug, Clone, Copy, PartialEq, Eq, Structural)]
pub struct DiffOptions {
    pub graph_limit: usize,
    pub parse_error_limit: usize,
    pub check_only: bool,
    pub ignore_comments: bool,
    pub strip_cr: bool,
}

/// Options that change how a diff is shown.
#[derive(Debug, Clone, Copy, PartialEq, Eq, Structural)]
pub struct DisplayOptions {
    pub num_context_lines: u32,
}

/// The file on one side: the path that was given, else no file at all where
/// there is no content, else a file under the displayed name.
pub open spec fn side_argument(
    path: Option<&Path>,
    display_path: Seq<char>,
    content: Seq<u8>,
) -> FileArgument {
    match path {
        Some(path) => FileArgument::NamedPath(owned_path(path)),
        None => if content.len() == 0 {
            FileArgument::DevNull
        } else {
            FileArgument::NamedPath(path_of_text(display_path))
        },
    }
}

/// Finds the file that stands on one side of a diff.
pub fn file_argument_for_side(path: Option<&Path>, display_path: &str, content: &[u8]) -> (r:
    FileArgument)
    ensures
        r == side_argument(path, display_path@, content@),
        r is DevNull <==> path is None && content@.len() == 0,
{
    match path {
        Some(path) => FileArgument::NamedPath(path.to_path_buf()),
        None => {
            if content.len() == 0 {
                FileArgument::DevNull
            } else {
                FileArgument::NamedPath(path_from_text(display_path))
            }
        },
    }
}

/// The options of a semantic diff: the defaults, but for the tolerance for parse
/// errors.
pub open spec fn semantic_options(
    defaults: DiffOptions,
    limit_text: Option<Seq<char>>,
) -> DiffOptions {
    DiffOptions {
        parse_error_limit: match limit_text {
            Some(text) => match crate::text::parsed_usize(text) {
                Some(limit) => limit,
                None => SEMANTIC_DEFAULT_PARSE_ERROR_LIMIT,
            },
            None => SEMANTIC_DEFAULT_PARSE_ERROR_LIMIT,
        },
        ..defaults
    }
}

/// Chooses the options of a semantic diff.
///
/// Parse errors are common in macro-heavy code. A semantic diff prefers a
/// best-effort syntactic diff over falling back to lines for a handful of
/// errors, so it tolerates many of them. `limit_text` is the value of
/// [`SEMANTIC_PARSE_ERROR_LIMIT_ENV`], where it is set: a number there takes the
/// place of that tolerance, and anything else is ignored.
pub fn semantic_diff_options(defaults: DiffOptions, limit_text: Option<&str>) -> (r: DiffOptions)
    ensures
        r == semantic_options(
            defaults,
            match limit_text {
                Some(text) => Some(text@),
                None => None,
            },
        ),
{
    let mut options = defaults;
    let parsed: Option<usize> = match limit_text {
        Some(text) => parse_usize(text),
        None => None,
    };
    options.parse_error_limit = match parsed {
        Some(limit) => limit,
        None => SEMANTIC_DEFAULT_PARSE_ERROR_LIMIT,
    };
    options
}

/// Which file stands on a side. A path that was given is kept, whatever the
/// content and the displayed name are. Without one, a side is missing exactly where
/// it has no content, and is else the file of the displayed name.
pub proof fn law_side_told_by_path_or_content(
    path: &Path,
    display_path: Seq<char>,
    content: Seq<u8>,
)
    ensures
        side_argument(Some(path), display_path, content) == FileArgument::NamedPath(
            owned_path(path),
        ),
        side_argument(None, display_path, content) is DevNull <==> content.len() == 0,
        content.len() > 0 ==> side_argument(None, display_path, content)
            == FileArgument::NamedPath(path_of_text(display_path)),
{
}

/// A semantic diff differs from the defaults in its tolerance for parse errors
/// alone. The tolerance is the number that was given and else a hundred, and the
/// default tolerance counts for nothing.
pub proof fn law_semantic_tolerance(defaults: DiffOptions, text: Seq<char>)
    ensures
        semantic_options(defaults, None).parse_error_limit == 100,
        semantic_options(defaults, Some(text)).parse_error_limit == (
        match crate::text::parsed_usize(text) {
            Some(number) => number,
            None => 100,
        }),
        forall|limit_text: Option<Seq<char>>|
            {
                let options = #[trigger] semantic_options(defaults, limit_text);
                &&& options.graph_limit == defaults.graph_limit
                &&& options.check_only == defaults.check_only
                &&& options.ignore_comments == defaults.ignore_comments
                &&& options.strip_cr == defaults.strip_cr
            },
{
}

} // verus!
