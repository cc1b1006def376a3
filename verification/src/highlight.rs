//! The highlighting of one source text.

use vstd::prelude::*;

use crate::error::DifftasticError;
use crate::format::Language;
use crate::matched::HighlightKind;

verus! {

/// A piece of a source text with its colour, by byte offset and length.
#[derive(Debug, Clone, Copy, PartialEq, Eq, Structural)]
pub struct HighlightSpan {
    pub offset: u32,
    pub length: u32,
    pub kind: HighlightKind,
}

/// What the highlighting of a source text needs next.
pub enum HighlightStage {
    /// Find the highlights with the grammar of the language.
    FindRanges { language: Language },
    /// Nothing more.
    Finished(Result<Vec<HighlightSpan>, DifftasticError>),
}

/// Begins the highlighting of a source text whose language was guessed by its
/// path and its content. A text in no known language has no highlights.
pub fn highlight_ranges_for_path(language: Option<Language>) -> (r: HighlightStage)
    ensures
        match language {
            Some(guessed) => r == (HighlightStage::FindRanges { language: guessed }),
            None => r matches HighlightStage::Finished(Ok(spans)) && spans@
                == Seq::<HighlightSpan>::empty(),
        },
{
    match language {
        Some(language) => HighlightStage::FindRanges { language },
        None => HighlightStage::Finished(Ok(Vec::new())),
    }
}

impl HighlightStage {
    /// Goes on with the highlights that were found, or the error that came in
    /// their place: either is the result. A result that is there stays.
    pub fn step(self, ranges: Result<Vec<HighlightSpan>, DifftasticError>) -> (r: Self)
        ensures
            r == (match self {
                HighlightStage::FindRanges { .. } => HighlightStage::Finished(ranges),
                HighlightStage::Finished(_) => self,
            }),
    {
        match self {
            HighlightStage::FindRanges { .. } => HighlightStage::Finished(ranges),
            finished => finished,
        }
    }
}

} // verus!
