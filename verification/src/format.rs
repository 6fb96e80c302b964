//! Format strings of the host language, and the proof that the format
//! string of a template reads as it is meant.
//!
//! The host's formatting reads a format string from left to right: `{{` and
//! `}}` are one literal brace each, `{}` is a placeholder, and any other
//! brace is an error. The format string that the scanner makes for a string
//! body reads without error, as the body's text with one placeholder for
//! each of its expressions.
use vstd::prelude::*;
use crate::template::{scan, scan_spec, TemplateView};

verus! {

/// One piece of a format string.
pub enum Piece {
    /// A character that is no brace, written as it is.
    Char(char),
    /// A literal brace, written twice.
    Brace(char),
    /// A placeholder, written `{}`.
    Marker,
}

/// Whether the character is a brace.
pub open spec fn is_brace(c: char) -> bool {
    c == '{' || c == '}'
}

impl Piece {
    /// Whether the piece holds a character that it can hold.
    pub open spec fn valid(self) -> bool {
        match self {
            Piece::Char(c) => !is_brace(c),
            Piece::Brace(c) => is_brace(c),
            Piece::Marker => true,
        }
    }

    /// The piece as it stands in a format string.
    pub open spec fn written(self) -> Seq<char> {
        match self {
            Piece::Char(c) => seq![c],
            Piece::Brace(c) => seq![c, c],
            Piece::Marker => seq!['{', '}'],
        }
    }

    /// The piece as it stands in a skeleton: a literal brace once.
    pub open spec fn shown(self) -> Seq<char> {
        match self {
            Piece::Char(c) => seq![c],
            Piece::Brace(c) => seq![c],
            Piece::Marker => seq!['{', '}'],
        }
    }
}

/// Whether each of the pieces is valid.
pub open spec fn all_valid(pieces: Seq<Piece>) -> bool {
    forall|i: int| 0 <= i < pieces.len() ==> (#[trigger] pieces[i]).valid()
}

/// The pieces as a format string.
pub open spec fn written(pieces: Seq<Piece>) -> Seq<char>
    decreases pieces.len(),
{
    if pieces.len() == 0 {
        Seq::empty()
    } else {
        written(pieces.drop_last()) + pieces.last().written()
    }
}

/// The pieces as a skeleton.
pub open spec fn shown(pieces: Seq<Piece>) -> Seq<char>
    decreases pieces.len(),
{
    if pieces.len() == 0 {
        Seq::empty()
    } else {
        shown(pieces.drop_last()) + pieces.last().shown()
    }
}

/// How many of the pieces are placeholders.
pub open spec fn markers(pieces: Seq<Piece>) -> nat
    decreases pieces.len(),
{
    if pieces.len() == 0 {
        0
    } else {
        markers(pieces.drop_last()) + if pieces.last() is Marker {
            1nat
        } else {
            0nat
        }
    }
}

/// How the host reads a format string, from `pos` on: the pieces, or `None`
/// where a brace stands alone.
pub open spec fn read(format: Seq<char>, pos: int) -> Option<Seq<Piece>>
    decreases format.len() - pos,
{
    if pos < 0 || pos >= format.len() {
        Some(Seq::empty())
    } else if is_brace(format[pos]) {
        if pos + 1 >= format.len() {
            None
        } else if format[pos + 1] == format[pos] {
            match read(format, pos + 2) {
                Some(rest) => Some(seq![Piece::Brace(format[pos])] + rest),
                None => None,
            }
        } else if format[pos] == '{' && format[pos + 1] == '}' {
            match read(format, pos + 2) {
                Some(rest) => Some(seq![Piece::Marker] + rest),
                None => None,
            }
        } else {
            None
        }
    } else {
        match read(format, pos + 1) {
            Some(rest) => Some(seq![Piece::Char(format[pos])] + rest),
            None => None,
        }
    }
}

/// The character of `text` at `pos`, as a piece.
pub open spec fn char_piece(text: Seq<char>, pos: int) -> Piece {
    Piece::Char(text[pos])
}

/// The pieces that the scanner makes of `text` from `pos` on, after `acc`:
/// the scanner of [`crate::template::scan`], with the placeholders'
/// expressions left out.
pub open spec fn scan_pieces(text: Seq<char>, pos: int, inside: bool, acc: Seq<Piece>) -> Seq<Piece>
    decreases text.len() - pos,
{
    if pos < 0 || pos >= text.len() {
        acc
    } else if inside {
        scan_pieces(text, pos + 1, text[pos] != '}', acc)
    } else if text[pos] == '{' {
        if pos + 1 < text.len() && text[pos + 1] == '{' {
            scan_pieces(text, pos + 2, false, acc.push(Piece::Brace('{')))
        } else {
            scan_pieces(text, pos + 1, true, acc.push(Piece::Marker))
        }
    } else if text[pos] == '}' {
        if pos + 1 < text.len() && text[pos + 1] == '}' {
            scan_pieces(text, pos + 2, false, acc.push(Piece::Brace('}')))
        } else {
            scan_pieces(text, pos + 1, false, acc.push(Piece::Brace('}')))
        }
    } else {
        scan_pieces(text, pos + 1, false, acc.push(char_piece(text, pos)))
    }
}

/// The template after the character of `text` at `pos` was copied.
pub open spec fn copied(acc: TemplateView, text: Seq<char>, pos: int) -> TemplateView {
    acc.copy(text[pos])
}

/// The template after the character of `text` at `pos` was added to the
/// last expression.
pub open spec fn extended(acc: TemplateView, text: Seq<char>, pos: int) -> TemplateView {
    acc.extend(text[pos])
}

/// Whether a template is made of the pieces.
pub open spec fn made_of(template: TemplateView, pieces: Seq<Piece>) -> bool {
    &&& all_valid(pieces)
    &&& template.format == written(pieces)
    &&& template.skeleton == shown(pieces)
    &&& template.exprs.len() == markers(pieces)
}

/// One more piece.
proof fn lemma_push(pieces: Seq<Piece>, piece: Piece)
    requires
        all_valid(pieces),
        piece.valid(),
    ensures
        all_valid(pieces.push(piece)),
        written(pieces.push(piece)) == written(pieces) + piece.written(),
        shown(pieces.push(piece)) == shown(pieces) + piece.shown(),
        markers(pieces.push(piece)) == markers(pieces) + if piece is Marker {
            1nat
        } else {
            0nat
        },
{
    let more = pieces.push(piece);
    assert(more.drop_last() =~= pieces);
    assert forall|i: int| 0 <= i < more.len() implies (#[trigger] more[i]).valid() by {
        if i < pieces.len() {
            assert(more[i] == pieces[i]);
        }
    }
}

/// The scanner's template is made of the scanner's pieces.
proof fn lemma_scan_pieces(
    text: Seq<char>,
    pos: int,
    inside: bool,
    acc: TemplateView,
    pieces: Seq<Piece>,
)
    requires
        0 <= pos,
        made_of(acc, pieces),
        inside ==> acc.exprs.len() > 0,
    ensures
        made_of(scan(text, pos, inside, acc), scan_pieces(text, pos, inside, pieces)),
    decreases text.len() - pos,
{
    if pos < text.len() {
        if inside {
            if text[pos] == '}' {
                lemma_scan_pieces(text, pos + 1, false, acc, pieces);
            } else {
                lemma_scan_pieces(text, pos + 1, true, extended(acc, text, pos), pieces);
            }
        } else if text[pos] == '{' {
            if pos + 1 < text.len() && text[pos + 1] == '{' {
                lemma_push(pieces, Piece::Brace('{'));
                assert(acc.brace('{').format =~= acc.format + seq!['{', '{']);
                assert(acc.brace('{').skeleton =~= acc.skeleton + seq!['{']);
                lemma_scan_pieces(
                    text,
                    pos + 2,
                    false,
                    acc.brace('{'),
                    pieces.push(Piece::Brace('{')),
                );
            } else {
                lemma_push(pieces, Piece::Marker);
                assert(acc.open().format =~= acc.format + seq!['{', '}']);
                assert(acc.open().skeleton =~= acc.skeleton + seq!['{', '}']);
                lemma_scan_pieces(text, pos + 1, true, acc.open(), pieces.push(Piece::Marker));
            }
        } else if text[pos] == '}' {
            lemma_push(pieces, Piece::Brace('}'));
            assert(acc.brace('}').format =~= acc.format + seq!['}', '}']);
            assert(acc.brace('}').skeleton =~= acc.skeleton + seq!['}']);
            if pos + 1 < text.len() && text[pos + 1] == '}' {
                lemma_scan_pieces(
                    text,
                    pos + 2,
                    false,
                    acc.brace('}'),
                    pieces.push(Piece::Brace('}')),
                );
            } else {
                lemma_scan_pieces(
                    text,
                    pos + 1,
                    false,
                    acc.brace('}'),
                    pieces.push(Piece::Brace('}')),
                );
            }
        } else {
            lemma_push(pieces, char_piece(text, pos));
            assert(copied(acc, text, pos).format =~= acc.format + seq![text[pos]]);
            assert(copied(acc, text, pos).skeleton =~= acc.skeleton + seq![text[pos]]);
            lemma_scan_pieces(
                text,
                pos + 1,
                false,
                copied(acc, text, pos),
                pieces.push(char_piece(text, pos)),
            );
        }
    }
}

/// What is written with one piece in front is that piece as written, then
/// the rest as written.
proof fn lemma_written_front(piece: Piece, rest: Seq<Piece>)
    ensures
        written(seq![piece] + rest) == piece.written() + written(rest),
    decreases rest.len(),
{
    let all = seq![piece] + rest;
    if rest.len() == 0 {
        assert(all.drop_last() =~= Seq::<Piece>::empty());
        assert(all.last() == piece);
        assert(written(all.drop_last()) =~= Seq::<char>::empty());
        assert(written(all) =~= piece.written() + written(rest));
    } else {
        assert(all.drop_last() =~= seq![piece] + rest.drop_last());
        assert(all.last() == rest.last());
        lemma_written_front(piece, rest.drop_last());
        assert(written(all) =~= piece.written() + written(rest));
    }
}

/// The host reads what was written from valid pieces as those pieces.
proof fn lemma_read_written(before: Seq<char>, pieces: Seq<Piece>)
    requires
        all_valid(pieces),
    ensures
        read(before + written(pieces), before.len() as int) == Some(pieces),
    decreases pieces.len(),
{
    let format = before + written(pieces);
    let pos = before.len() as int;
    if pieces.len() == 0 {
    } else {
        let first = pieces[0];
        let rest = pieces.drop_first();
        assert(pieces =~= seq![first] + rest);
        lemma_written_front(first, rest);
        assert(first.valid());
        assert forall|i: int| 0 <= i < rest.len() implies (#[trigger] rest[i]).valid() by {
            assert(rest[i] == pieces[i + 1]);
        }
        let next = before + first.written();
        assert(format =~= next + written(rest));
        lemma_read_written(next, rest);
        assert(format[pos] == first.written()[0]);
        match first {
            Piece::Char(c) => {},
            Piece::Brace(c) => {
                assert(format[pos + 1] == first.written()[1]);
            },
            Piece::Marker => {
                assert(format[pos + 1] == first.written()[1]);
            },
        }
    }
}

/// The format string of a template reads as it is meant.
///
/// For every text, the host reads the format string that the scanner makes
/// without error, as a sequence of pieces with exactly one placeholder for
/// each expression of the template; and the skeleton shows the same pieces,
/// each literal brace once.
pub proof fn theorem_format_reads(text: Seq<char>)
    ensures
        read(scan_spec(text).format, 0) matches Some(pieces) && made_of(scan_spec(text), pieces),
{
    let template = scan_spec(text);
    let pieces = scan_pieces(text, 0, false, Seq::empty());
    lemma_scan_pieces(text, 0, false, TemplateView::empty(), Seq::empty());
    lemma_read_written(Seq::empty(), pieces);
    assert(Seq::<char>::empty() + written(pieces) =~= written(pieces));
}

} // verus!
