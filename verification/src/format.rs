//! How a file is understood: as code of some language, as plain text, as text
//! because the code could not be handled, or as binary data.

use humansize::{format_size, FormatSizeOptions, BINARY};
use vstd::prelude::*;
use vstd::string::*;

use crate::text::push_decimal;

verus! {

/// A programming language, known by its name.
#[derive(Debug, PartialEq, Eq)]
pub struct Language {
    pub name: String,
}

impl View for Language {
    type V = Seq<char>;

    open spec fn view(&self) -> Seq<char> {
        self.name@
    }
}

impl Clone for Language {
    fn clone(&self) -> (r: Self)
        ensures
            r@ == self@,
    {
        Language { name: self.name.clone() }
    }
}

/// How a file is understood.
#[derive(Debug, PartialEq, Eq)]
pub enum FileFormat {
    SupportedLanguage(Language),
    PlainText,
    TextFallback { reason: String },
    Binary,
}

/// A [`FileFormat`] with its texts as sequences of characters.
pub enum FileFormatModel {
    SupportedLanguage(Seq<char>),
    PlainText,
    TextFallback { reason: Seq<char> },
    Binary,
}

impl View for FileFormat {
    type V = FileFormatModel;

    open spec fn view(&self) -> FileFormatModel {
        match *self {
            FileFormat::SupportedLanguage(language) => FileFormatModel::SupportedLanguage(
                language@,
            ),
            FileFormat::PlainText => FileFormatModel::PlainText,
            FileFormat::TextFallback { reason } => FileFormatModel::TextFallback {
                reason: reason@,
            },
            FileFormat::Binary => FileFormatModel::Binary,
        }
    }
}

impl Clone for FileFormat {
    fn clone(&self) -> (r: Self)
        ensures
            r@ == self@,
    {
        match self {
            FileFormat::SupportedLanguage(language) => FileFormat::SupportedLanguage(
                language.clone(),
            ),
            FileFormat::PlainText => FileFormat::PlainText,
            FileFormat::TextFallback { reason } => FileFormat::TextFallback {
                reason: reason.clone(),
            },
            FileFormat::Binary => FileFormat::Binary,
        }
    }
}

impl FileFormatModel {
    /// Why lines are compared in place of syntax: set for a fallback, and only
    /// there.
    pub open spec fn fallback_reason(self) -> Option<Seq<char>> {
        match self {
            FileFormatModel::TextFallback { reason } => Some(reason),
            _ => None,
        }
    }

    /// The format of a file whose language was guessed, or could not be.
    pub open spec fn of_language(language: Option<Seq<char>>) -> FileFormatModel {
        match language {
            Some(language) => FileFormatModel::SupportedLanguage(language),
            None => FileFormatModel::PlainText,
        }
    }
}

/// The characters of a text that may be missing.
pub open spec fn optional_text(text: Option<String>) -> Option<Seq<char>> {
    match text {
        Some(text) => Some(text@),
        None => None,
    }
}

/// The name of a language that may be missing.
pub open spec fn optional_language(language: Option<Language>) -> Option<Seq<char>> {
    match language {
        Some(language) => Some(language@),
        None => None,
    }
}

/// Why lines are compared in place of syntax, where that is so.
pub fn line_fallback_reason(file_format: &FileFormat) -> (r: Option<String>)
    ensures
        optional_text(r) == file_format@.fallback_reason(),
{
    match file_format {
        FileFormat::TextFallback { reason } => Some(reason.clone()),
        FileFormat::SupportedLanguage(_) | FileFormat::PlainText | FileFormat::Binary => None,
    }
}

/// The format of a file whose language was guessed, or could not be.
pub fn file_format_for_language(language: Option<Language>) -> (r: FileFormat)
    ensures
        r@ == FileFormatModel::of_language(optional_language(language)),
{
    match language {
        Some(language) => FileFormat::SupportedLanguage(language),
        None => FileFormat::PlainText,
    }
}

/// What `humansize::format_size` writes for a number of bytes with the `BINARY`
/// options and the given number of decimal places.
pub uninterp spec fn human_size(num_bytes: usize, decimal_places: usize) -> Seq<char>;

/// `humansize::format_size` with the options `BINARY`, their decimal places
/// replaced: the text is fixed by the two numbers. The bound on the places keeps
/// to what a format precision admits.
#[verifier::external_body]
fn binary_size(num_bytes: usize, decimal_places: usize) -> (r: String)
    requires
        decimal_places <= 1000,
    ensures
        r@ == human_size(num_bytes, decimal_places),
{
    format_size(num_bytes, FormatSizeOptions::from(BINARY).decimal_places(decimal_places))
}

/// The decimal places of a size in a message.
pub const SIZE_DECIMAL_PLACES: usize = 1;

/// Why files that are too large are compared by lines, given their size as text.
pub open spec fn byte_limit_text(size: Seq<char>) -> Seq<char> {
    size + " exceeded DFT_BYTE_LIMIT"@
}

/// Why files with too many parse errors are compared by lines.
pub open spec fn parse_error_text(error_count: usize, language: Seq<char>) -> Seq<char> {
    crate::text::decimal(error_count as nat) + " "@ + language + " parse error"@ + (if error_count
        == 1 {
        ""@
    } else {
        "s"@
    }) + ", exceeded DFT_PARSE_ERROR_LIMIT"@
}

/// Why files whose syntax takes too long to compare are compared by lines.
pub open spec fn graph_limit_text() -> Seq<char> {
    "exceeded DFT_GRAPH_LIMIT"@
}

/// Says why files that are too large are compared by lines, given their size as
/// text.
pub fn byte_limit_reason(size: String) -> (r: String)
    ensures
        r@ == byte_limit_text(size@),
{
    let mut reason = size;
    reason.append(" exceeded DFT_BYTE_LIMIT");
    reason
}

/// The format of files that are too large for a syntactic diff.
pub fn byte_limit_fallback(num_bytes: usize) -> (r: FileFormat)
    ensures
        r@ == (FileFormatModel::TextFallback {
            reason: byte_limit_text(human_size(num_bytes, SIZE_DECIMAL_PLACES)),
        }),
{
    FileFormat::TextFallback {
        reason: byte_limit_reason(binary_size(num_bytes, SIZE_DECIMAL_PLACES)),
    }
}

/// The format of files with too many parse errors for a syntactic diff.
pub fn parse_error_fallback(error_count: usize, language: &Language) -> (r: FileFormat)
    ensures
        r@ == (FileFormatModel::TextFallback { reason: parse_error_text(error_count, language@) }),
{
    let mut reason = String::new();
    push_decimal(&mut reason, error_count);
    reason.append(" ");
    reason.append(language.name.as_str());
    reason.append(" parse error");
    reason.append(
        if error_count == 1 {
            ""
        } else {
            "s"
        },
    );
    reason.append(", exceeded DFT_PARSE_ERROR_LIMIT");
    proof {
        assert(reason@ =~= parse_error_text(error_count, language@));
    }
    FileFormat::TextFallback { reason }
}

/// The format of files whose syntax takes too long to compare.
pub fn graph_limit_fallback() -> (r: FileFormat)
    ensures
        r@ == (FileFormatModel::TextFallback { reason: graph_limit_text() }),
{
    FileFormat::TextFallback { reason: String::from_str("exceeded DFT_GRAPH_LIMIT") }
}

/// What a format is told by: the name of its language or the reason of its
/// fallback, letter by letter.
pub proof fn law_format_view(file_format: FileFormat, language: Language, text: String)
    ensures
        language@ == language.name@,
        file_format matches FileFormat::SupportedLanguage(known) ==> file_format@
            == FileFormatModel::SupportedLanguage(known.name@),
        file_format is PlainText ==> file_format@ is PlainText,
        file_format matches FileFormat::TextFallback { reason } ==> file_format@ == (
        FileFormatModel::TextFallback { reason: reason@ }),
        file_format is Binary ==> file_format@ is Binary,
        optional_language(Some(language)) == Some(language.name@),
        optional_language(None) is None,
        optional_text(Some(text)) == Some(text@),
        optional_text(None) is None,
{
}

/// A reason to compare lines is given for a fallback alone, and it is that of the
/// fallback.
pub proof fn law_reason_of_fallback_only(
    file_format: FileFormatModel,
    reason: Seq<char>,
    language: Seq<char>,
)
    ensures
        file_format.fallback_reason() is Some <==> file_format is TextFallback,
        (FileFormatModel::TextFallback { reason }).fallback_reason() == Some(reason),
        FileFormatModel::of_language(Some(language)) == FileFormatModel::SupportedLanguage(
            language,
        ),
        FileFormatModel::of_language(None) is PlainText,
{
}

/// How the reasons are worded: with the size, with the number of errors and the
/// language, errors in the singular for one alone.
pub proof fn law_reasons_worded(size: Seq<char>, error_count: usize, language: Seq<char>)
    ensures
        byte_limit_text(size) == size + " exceeded DFT_BYTE_LIMIT"@,
        graph_limit_text() == "exceeded DFT_GRAPH_LIMIT"@,
        error_count == 1 ==> parse_error_text(error_count, language) == "1 "@ + language
            + " parse error, exceeded DFT_PARSE_ERROR_LIMIT"@,
        error_count != 1 ==> parse_error_text(error_count, language) == crate::text::decimal(
            error_count as nat,
        ) + " "@ + language + " parse errors, exceeded DFT_PARSE_ERROR_LIMIT"@,
        SIZE_DECIMAL_PLACES == 1,
{
    reveal_strlit("");
    reveal_strlit("s");
    reveal_strlit(" ");
    reveal_strlit("1 ");
    reveal_strlit(" parse error");
    reveal_strlit(", exceeded DFT_PARSE_ERROR_LIMIT");
    reveal_strlit(" parse error, exceeded DFT_PARSE_ERROR_LIMIT");
    reveal_strlit(" parse errors, exceeded DFT_PARSE_ERROR_LIMIT");
    assert(" parse error"@ + ""@ + ", exceeded DFT_PARSE_ERROR_LIMIT"@
        =~= " parse error, exceeded DFT_PARSE_ERROR_LIMIT"@);
    assert(" parse error"@ + "s"@ + ", exceeded DFT_PARSE_ERROR_LIMIT"@
        =~= " parse errors, exceeded DFT_PARSE_ERROR_LIMIT"@);
    if error_count == 1 {
        assert(crate::text::decimal(1) =~= seq!['1']);
        assert(parse_error_text(error_count, language) =~= "1 "@ + language
            + " parse error, exceeded DFT_PARSE_ERROR_LIMIT"@);
    } else {
        assert(parse_error_text(error_count, language) =~= crate::text::decimal(
            error_count as nat,
        ) + " "@ + language + " parse errors, exceeded DFT_PARSE_ERROR_LIMIT"@);
    }
}

} // verus!
