//! Matched positions: pieces of a line, how each was matched against the other
//! side, and the spans that a reader is shown for those that changed.

use std::collections::HashMap;
use vstd::prelude::*;

verus! {

/// What a string atom is.
#[derive(Debug, Clone, Copy, PartialEq, Eq, Structural)]
pub enum StringKind {
    StringLiteral,
    Text,
}

/// What an atom of a syntax tree is.
#[derive(Debug, Clone, Copy, PartialEq, Eq, Structural)]
pub enum AtomKind {
    Normal,
    String(StringKind),
    Type,
    Comment,
    Keyword,
    TreeSitterError,
}

/// What a token of a syntax tree is.
#[derive(Debug, Clone, Copy, PartialEq, Eq, Structural)]
pub enum TokenKind {
    Delimiter,
    Atom(AtomKind),
}

/// How a piece of a line was matched against the other side.
#[derive(Debug, Clone, Copy, PartialEq, Eq, Structural)]
pub enum MatchKind {
    UnchangedToken { highlight: TokenKind },
    Novel { highlight: TokenKind },
    UnchangedPartOfNovelItem { highlight: TokenKind },
    NovelWord { highlight: TokenKind },
    Ignored { highlight: TokenKind },
}

/// A piece of one line, as a half-open range of columns.
#[derive(Debug, Clone, Copy, PartialEq, Eq, Structural)]
pub struct SingleLineSpan {
    pub line: u32,
    pub start_col: u32,
    pub end_col: u32,
}

/// A piece of one line with how it was matched.
///
/// `novel` tells whether the matcher counts the piece as changed. `detail` is
/// the matcher's own record of the match. It is carried through and never read.
#[derive(Debug, PartialEq, Eq)]
pub struct MatchedPos<D> {
    pub kind: MatchKind,
    pub novel: bool,
    pub pos: SingleLineSpan,
    pub detail: D,
}

/// How a span is coloured.
#[derive(Debug, Clone, Copy, PartialEq, Eq, Structural)]
pub enum HighlightKind {
    Normal,
    Keyword,
    String,
    Comment,
    Number,
    Type,
    Function,
    Operator,
    Punctuation,
    Variable,
    Constant,
    Builtin,
    Attribute,
    Tag,
    Property,
    Namespace,
    Label,
    Preprocessor,
}

/// How strongly a span is marked as changed.
#[derive(Debug, Clone, Copy, PartialEq, Eq, Structural)]
pub enum ChangeIntensity {
    Novel,
    NovelWord,
    UnchangedContext,
}

/// A changed piece of a line, as it is shown.
#[derive(Debug, Clone, Copy, PartialEq, Eq, Structural)]
pub struct ChangeSpan {
    pub start_col: u32,
    pub end_col: u32,
    pub highlight: HighlightKind,
    pub intensity: ChangeIntensity,
}

impl TokenKind {
    /// How a token is coloured.
    pub open spec fn colour(self) -> HighlightKind {
        match self {
            TokenKind::Delimiter => HighlightKind::Punctuation,
            TokenKind::Atom(AtomKind::String(StringKind::StringLiteral)) => HighlightKind::String,
            TokenKind::Atom(AtomKind::String(StringKind::Text)) => HighlightKind::Normal,
            TokenKind::Atom(AtomKind::Keyword) => HighlightKind::Keyword,
            TokenKind::Atom(AtomKind::Comment) => HighlightKind::Comment,
            TokenKind::Atom(AtomKind::Type) => HighlightKind::Type,
            TokenKind::Atom(AtomKind::Normal) => HighlightKind::Normal,
            TokenKind::Atom(AtomKind::TreeSitterError) => HighlightKind::Preprocessor,
        }
    }
}

impl MatchKind {
    /// The token that was matched.
    pub open spec fn token(self) -> TokenKind {
        match self {
            MatchKind::UnchangedToken { highlight } => highlight,
            MatchKind::Novel { highlight } => highlight,
            MatchKind::UnchangedPartOfNovelItem { highlight } => highlight,
            MatchKind::NovelWord { highlight } => highlight,
            MatchKind::Ignored { highlight } => highlight,
        }
    }

    /// How strongly the piece is marked.
    pub open spec fn intensity(self) -> ChangeIntensity {
        if self is NovelWord {
            ChangeIntensity::NovelWord
        } else if self is UnchangedPartOfNovelItem {
            ChangeIntensity::UnchangedContext
        } else {
            ChangeIntensity::Novel
        }
    }
}

/// Finds how a matched piece is coloured and how strongly it is marked.
pub fn convert_match_kind(kind: &MatchKind) -> (r: (HighlightKind, ChangeIntensity))
    ensures
        r == (kind.token().colour(), kind.intensity()),
{
    let (highlight, intensity) = match kind {
        MatchKind::Novel { highlight } => (highlight, ChangeIntensity::Novel),
        MatchKind::NovelWord { highlight } => (highlight, ChangeIntensity::NovelWord),
        MatchKind::UnchangedPartOfNovelItem { highlight } => (
            highlight,
            ChangeIntensity::UnchangedContext,
        ),
        MatchKind::UnchangedToken { highlight } | MatchKind::Ignored { highlight } => (
            highlight,
            ChangeIntensity::Novel,
        ),
    };
    let kind = match highlight {
        TokenKind::Delimiter => HighlightKind::Punctuation,
        TokenKind::Atom(atom) => match atom {
            AtomKind::String(StringKind::StringLiteral) => HighlightKind::String,
            AtomKind::String(StringKind::Text) => HighlightKind::Normal,
            AtomKind::Keyword => HighlightKind::Keyword,
            AtomKind::Comment => HighlightKind::Comment,
            AtomKind::Type => HighlightKind::Type,
            AtomKind::Normal => HighlightKind::Normal,
            AtomKind::TreeSitterError => HighlightKind::Preprocessor,
        },
    };
    (kind, intensity)
}

impl ChangeSpan {
    /// Whether this span may stand before another: spans are ordered by their
    /// first column, and from the same first column by their end.
    pub open spec fn goes_before(self, other: ChangeSpan) -> bool {
        self.start_col < other.start_col || (self.start_col == other.start_col && self.end_col
            <= other.end_col)
    }
}

/// The span that is shown for a matched piece.
pub open spec fn span_of<D>(matched: MatchedPos<D>) -> ChangeSpan {
    ChangeSpan {
        start_col: matched.pos.start_col,
        end_col: matched.pos.end_col,
        highlight: matched.kind.token().colour(),
        intensity: matched.kind.intensity(),
    }
}

/// Whether a piece counts as changed and lies on the given line.
pub open spec fn changes_line<D>(matched: MatchedPos<D>, line: u32) -> bool {
    matched.novel && matched.pos.line == line
}

/// An ordered list with one more span, which comes after those it may follow.
pub open spec fn with_span(spans: Seq<ChangeSpan>, span: ChangeSpan) -> Seq<ChangeSpan>
    decreases spans.len(),
{
    if spans.len() == 0 || spans.last().goes_before(span) {
        spans.push(span)
    } else {
        with_span(spans.drop_last(), span).push(spans.last())
    }
}

/// The changed spans of one line, in the order in which they are shown.
pub open spec fn line_spans<D>(positions: Seq<MatchedPos<D>>, line: u32) -> Seq<ChangeSpan>
    decreases positions.len(),
{
    if positions.len() == 0 {
        Seq::empty()
    } else {
        let before = line_spans(positions.drop_last(), line);
        if changes_line(positions.last(), line) {
            with_span(before, span_of(positions.last()))
        } else {
            before
        }
    }
}

proof fn lemma_with_span_place(spans: Seq<ChangeSpan>, span: ChangeSpan, place: int)
    requires
        0 <= place <= spans.len(),
        place > 0 ==> spans[place - 1].goes_before(span),
        forall|i: int| place <= i < spans.len() ==> !(#[trigger] spans[i]).goes_before(span),
    ensures
        with_span(spans, span) == spans.insert(place, span),
    decreases spans.len(),
{
    if spans.len() == place {
        assert(spans.insert(place, span) =~= spans.push(span));
    } else {
        assert(!spans[spans.len() - 1].goes_before(span));
        lemma_with_span_place(spans.drop_last(), span, place);
        assert(spans.insert(place, span) =~= spans.drop_last().insert(place, span).push(
            spans.last(),
        ));
    }
}

/// Puts a span into an ordered list of spans.
fn insert_span(spans: &mut Vec<ChangeSpan>, span: ChangeSpan)
    ensures
        final(spans)@ == with_span(old(spans)@, span),
{
    let mut place: usize = spans.len();
    while place > 0 && (span.start_col < spans[place - 1].start_col || (span.start_col
        == spans[place - 1].start_col && span.end_col < spans[place - 1].end_col))
        invariant
            place <= spans@.len(),
            spans@ == old(spans)@,
            forall|i: int| place <= i < spans@.len() ==> !(#[trigger] spans@[i]).goes_before(span),
        decreases place,
    {
        place = place - 1;
    }
    proof {
        lemma_with_span_place(spans@, span, place as int);
    }
    spans.insert(place, span);
}

/// Groups the changed pieces of a side by their line. A line is a key where it
/// has at least one changed piece, and its spans stand in order.
pub fn semantic_changes_by_line<D>(positions: &[MatchedPos<D>]) -> (r: HashMap<
    u32,
    Vec<ChangeSpan>,
>)
    ensures
        forall|line: u32|
            #![trigger r@.contains_key(line)]
            r@.contains_key(line) <==> line_spans(positions@, line).len() > 0,
        forall|line: u32|
            #![trigger r@[line]]
            r@.contains_key(line) ==> r@[line]@ == line_spans(positions@, line),
{
    broadcast use vstd::std_specs::hash::group_hash_axioms;

    let mut by_line: HashMap<u32, Vec<ChangeSpan>> = HashMap::new();
    let mut index: usize = 0;
    while index < positions.len()
        invariant
            index <= positions@.len(),
            forall|line: u32|
                #![trigger by_line@.contains_key(line)]
                by_line@.contains_key(line) <==> line_spans(
                    positions@.take(index as int),
                    line,
                ).len() > 0,
            forall|line: u32|
                #![trigger by_line@[line]]
                by_line@.contains_key(line) ==> by_line@[line]@ == line_spans(
                    positions@.take(index as int),
                    line,
                ),
        decreases positions@.len() - index,
    {
        let matched = &positions[index];
        proof {
            assert(positions@.take(index + 1).drop_last() =~= positions@.take(index as int));
        }
        if matched.novel {
            let (highlight, intensity) = convert_match_kind(&matched.kind);
            let span = ChangeSpan {
                start_col: matched.pos.start_col,
                end_col: matched.pos.end_col,
                highlight,
                intensity,
            };
            let mut spans: Vec<ChangeSpan> = match by_line.remove(&matched.pos.line) {
                Some(spans) => spans,
                None => Vec::new(),
            };
            proof {
                assert(spans@ =~= line_spans(positions@.take(index as int), matched.pos.line));
                lemma_with_span_grows(spans@, span);
            }
            insert_span(&mut spans, span);
            by_line.insert(matched.pos.line, spans);
        }
        index = index + 1;
    }
    proof {
        assert(positions@.take(positions@.len() as int) =~= positions@);
    }
    by_line
}

proof fn lemma_with_span_grows(spans: Seq<ChangeSpan>, span: ChangeSpan)
    ensures
        with_span(spans, span).len() == spans.len() + 1,
        with_span(spans, span).to_multiset() == spans.to_multiset().insert(span),
    decreases spans.len(),
{
    broadcast use vstd::seq_lib::group_to_multiset_ensures;

    if spans.len() > 0 && !spans.last().goes_before(span) {
        lemma_with_span_grows(spans.drop_last(), span);
        assert(spans =~= spans.drop_last().push(spans.last()));
        assert(with_span(spans, span).to_multiset() =~= spans.to_multiset().insert(span));
    }
}

proof fn lemma_with_span_ordered(spans: Seq<ChangeSpan>, span: ChangeSpan)
    requires
        forall|i: int, j: int|
            0 <= i < j < spans.len() ==> (#[trigger] spans[i]).goes_before(#[trigger] spans[j]),
    ensures
        forall|i: int, j: int|
            0 <= i < j < with_span(spans, span).len() ==> (#[trigger] with_span(
                spans,
                span,
            )[i]).goes_before(#[trigger] with_span(spans, span)[j]),
        forall|i: int|
            0 <= i < with_span(spans, span).len() ==> (#[trigger] with_span(spans, span)[i] == span
                || spans.contains(with_span(spans, span)[i])),
    decreases spans.len(),
{
    let out = with_span(spans, span);
    lemma_with_span_grows(spans, span);
    if spans.len() == 0 || spans.last().goes_before(span) {
        assert forall|i: int, j: int| 0 <= i < j < out.len() implies (#[trigger] out[i]).goes_before(
            #[trigger] out[j],
        ) by {
            if j == spans.len() && i < spans.len() - 1 {
                assert(spans[i].goes_before(spans[spans.len() - 1]));
            }
        }
        assert forall|i: int| 0 <= i < out.len() implies (#[trigger] out[i] == span
            || spans.contains(out[i])) by {
            if i < spans.len() {
                assert(out[i] == spans[i]);
            }
        }
    } else {
        let rest = spans.drop_last();
        let inner = with_span(rest, span);
        lemma_with_span_grows(rest, span);
        lemma_with_span_ordered(rest, span);
        assert forall|i: int| 0 <= i < inner.len() implies (#[trigger] inner[i]).goes_before(
            spans.last(),
        ) by {
            if inner[i] != span {
                assert(rest.contains(inner[i]));
                let k = choose|k: int| 0 <= k < rest.len() && rest[k] == inner[i];
                assert(spans[k].goes_before(spans[spans.len() - 1]));
            }
        }
        assert forall|i: int| 0 <= i < out.len() implies (#[trigger] out[i] == span
            || spans.contains(out[i])) by {
            if i < inner.len() && out[i] != span {
                assert(rest.contains(inner[i]));
                let k = choose|k: int| 0 <= k < rest.len() && rest[k] == inner[i];
                assert(spans[k] == out[i]);
            } else if i == inner.len() {
                assert(spans[spans.len() - 1] == out[i]);
            }
        }
    }
}

proof fn lemma_columns_grow(spans: Seq<ChangeSpan>, span: ChangeSpan)
    ensures
        with_span(spans, span).map_values(|s: ChangeSpan| (s.start_col, s.end_col)).to_multiset()
            == spans.map_values(|s: ChangeSpan| (s.start_col, s.end_col)).to_multiset().insert(
            (span.start_col, span.end_col),
        ),
    decreases spans.len(),
{
    broadcast use vstd::seq_lib::group_to_multiset_ensures;

    let columns = |s: ChangeSpan| (s.start_col, s.end_col);
    let out = with_span(spans, span);
    if spans.len() == 0 || spans.last().goes_before(span) {
        assert(out.map_values(columns) =~= spans.map_values(columns).push(columns(span)));
    } else {
        let rest = spans.drop_last();
        lemma_columns_grow(rest, span);
        assert(spans.map_values(columns) =~= rest.map_values(columns).push(
            columns(spans.last()),
        ));
        assert(out.map_values(columns) =~= with_span(rest, span).map_values(columns).push(
            columns(spans.last()),
        ));
        assert(out.map_values(columns).to_multiset() =~= spans.map_values(
            columns,
        ).to_multiset().insert(columns(span)));
    }
}

/// The spans of a line lie where its changed pieces lie: the columns of the spans
/// are those of the pieces that count as changed on the line, each as often as it
/// occurs, and no others.
pub proof fn law_span_columns<D>(positions: Seq<MatchedPos<D>>, line: u32)
    ensures
        line_spans(positions, line).map_values(
            |span: ChangeSpan| (span.start_col, span.end_col),
        ).to_multiset() == positions.filter(
            |matched: MatchedPos<D>| matched.novel && matched.pos.line == line,
        ).map_values(
            |matched: MatchedPos<D>| (matched.pos.start_col, matched.pos.end_col),
        ).to_multiset(),
    decreases positions.len(),
{
    broadcast use vstd::seq_lib::group_to_multiset_ensures;

    reveal(Seq::filter);
    let on_line = |matched: MatchedPos<D>| matched.novel && matched.pos.line == line;
    let shown = |span: ChangeSpan| (span.start_col, span.end_col);
    let found = |matched: MatchedPos<D>| (matched.pos.start_col, matched.pos.end_col);
    if positions.len() > 0 {
        let rest = positions.drop_last();
        law_span_columns(rest, line);
        let kept = rest.filter(on_line);
        if on_line(positions.last()) {
            lemma_columns_grow(line_spans(rest, line), span_of(positions.last()));
            assert(positions.filter(on_line) == kept.push(positions.last()));
            assert(kept.push(positions.last()).map_values(found) =~= kept.map_values(found).push(
                found(positions.last()),
            ));
        } else {
            assert(positions.filter(on_line) == kept);
        }
    } else {
        assert(positions.filter(on_line).map_values(found) =~= line_spans(
            positions,
            line,
        ).map_values(shown));
    }
}

/// The spans of a line are exactly those of its changed pieces, none lost and
/// none made up: each has the columns of its piece, the colour of its token and
/// the strength of its match. They stand in the order of their first columns, and
/// from the same first column in that of their ends.
pub proof fn law_line_spans<D>(positions: Seq<MatchedPos<D>>, line: u32)
    ensures
        line_spans(positions, line).to_multiset() == positions.filter(
            |matched: MatchedPos<D>| matched.novel && matched.pos.line == line,
        ).map_values(
            |matched: MatchedPos<D>|
                ChangeSpan {
                    start_col: matched.pos.start_col,
                    end_col: matched.pos.end_col,
                    highlight: matched.kind.token().colour(),
                    intensity: matched.kind.intensity(),
                },
        ).to_multiset(),
        forall|i: int, j: int|
            #![trigger line_spans(positions, line)[i], line_spans(positions, line)[j]]
            0 <= i < j < line_spans(positions, line).len() ==> {
                let first = line_spans(positions, line)[i];
                let second = line_spans(positions, line)[j];
                first.start_col < second.start_col || (first.start_col == second.start_col
                    && first.end_col <= second.end_col)
            },
{
    lemma_line_spans(positions, line);
    assert((|matched: MatchedPos<D>| matched.novel && matched.pos.line == line) =~= (
    |matched: MatchedPos<D>| changes_line(matched, line)));
    assert((|matched: MatchedPos<D>|
        ChangeSpan {
            start_col: matched.pos.start_col,
            end_col: matched.pos.end_col,
            highlight: matched.kind.token().colour(),
            intensity: matched.kind.intensity(),
        }) =~= (|matched: MatchedPos<D>| span_of(matched)));
    let spans = line_spans(positions, line);
    assert forall|i: int, j: int|
        #![trigger spans[i], spans[j]]
        0 <= i < j < spans.len() implies spans[i].start_col < spans[j].start_col || (
    spans[i].start_col == spans[j].start_col && spans[i].end_col <= spans[j].end_col) by {
        assert(spans[i].goes_before(spans[j]));
    }
}

/// How every match is shown. The colour goes by the token alone and the strength
/// by the match alone.
pub proof fn law_match_kinds_shown(highlight: TokenKind)
    ensures
        (MatchKind::Novel { highlight }).token() == highlight,
        (MatchKind::NovelWord { highlight }).token() == highlight,
        (MatchKind::UnchangedPartOfNovelItem { highlight }).token() == highlight,
        (MatchKind::UnchangedToken { highlight }).token() == highlight,
        (MatchKind::Ignored { highlight }).token() == highlight,
        (MatchKind::Novel { highlight }).intensity() == ChangeIntensity::Novel,
        (MatchKind::NovelWord { highlight }).intensity() == ChangeIntensity::NovelWord,
        (MatchKind::UnchangedPartOfNovelItem { highlight }).intensity()
            == ChangeIntensity::UnchangedContext,
        (MatchKind::UnchangedToken { highlight }).intensity() == ChangeIntensity::Novel,
        (MatchKind::Ignored { highlight }).intensity() == ChangeIntensity::Novel,
        highlight.colour() == HighlightKind::Punctuation <==> highlight is Delimiter,
        highlight.colour() == HighlightKind::Keyword <==> highlight == TokenKind::Atom(
            AtomKind::Keyword,
        ),
        highlight.colour() == HighlightKind::Comment <==> highlight == TokenKind::Atom(
            AtomKind::Comment,
        ),
        highlight.colour() == HighlightKind::Type <==> highlight == TokenKind::Atom(AtomKind::Type),
        highlight.colour() == HighlightKind::String <==> highlight == TokenKind::Atom(
            AtomKind::String(StringKind::StringLiteral),
        ),
        highlight.colour() == HighlightKind::Preprocessor <==> highlight == TokenKind::Atom(
            AtomKind::TreeSitterError,
        ),
        highlight.colour() == HighlightKind::Normal <==> (highlight == TokenKind::Atom(
            AtomKind::Normal,
        ) || highlight == TokenKind::Atom(AtomKind::String(StringKind::Text))),
{
}

proof fn lemma_line_spans<D>(positions: Seq<MatchedPos<D>>, line: u32)
    ensures
        line_spans(positions, line).to_multiset() == positions.filter(
            |matched: MatchedPos<D>| changes_line(matched, line),
        ).map_values(|matched: MatchedPos<D>| span_of(matched)).to_multiset(),
        forall|i: int, j: int|
            0 <= i < j < line_spans(positions, line).len() ==> (#[trigger] line_spans(
                positions,
                line,
            )[i]).goes_before(#[trigger] line_spans(positions, line)[j]),
    decreases positions.len(),
{
    broadcast use vstd::seq_lib::group_to_multiset_ensures;

    reveal(Seq::filter);
    let on_line = |matched: MatchedPos<D>| changes_line(matched, line);
    let shown = |matched: MatchedPos<D>| span_of(matched);
    if positions.len() > 0 {
        let rest = positions.drop_last();
        lemma_line_spans(rest, line);
        let kept = rest.filter(on_line);
        if changes_line(positions.last(), line) {
            let span = span_of(positions.last());
            lemma_with_span_ordered(line_spans(rest, line), span);
            lemma_with_span_grows(line_spans(rest, line), span);
            assert(positions.filter(on_line) == kept.push(positions.last()));
            assert(kept.push(positions.last()).map_values(shown) =~= kept.map_values(shown).push(
                span,
            ));
        } else {
            assert(positions.filter(on_line) == kept);
        }
    } else {
        assert(positions.filter(on_line).map_values(shown) =~= line_spans(positions, line));
    }
}

} // verus!
