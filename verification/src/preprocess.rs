//! Include directives: a source text is cut into lines, and each line either
//! names a file whose contents take its place or is part of the program.

use vstd::prelude::*;
use crate::lexer::{lemma_scan, scan, scan_to, Stop};
use crate::text::{chars_of, string_of};

verus! {

/// The words that open an include directive.
pub open spec fn include_mark() -> Seq<char> {
    "#include "@
}

/// A piece of a source text.
#[derive(Debug, Clone, PartialEq, Eq)]
pub enum Piece {
    /// A line of the program, with a newline at its end.
    Text(String),
    /// The path of a file whose pieces stand here.
    Include(String),
}

/// A piece, with its text as a sequence of characters.
pub enum PieceView {
    Text(Seq<char>),
    Include(Seq<char>),
}

impl View for Piece {
    type V = PieceView;

    open spec fn view(&self) -> PieceView {
        match *self {
            Piece::Text(line) => PieceView::Text(line@),
            Piece::Include(path) => PieceView::Include(path@),
        }
    }
}

impl DeepView for Piece {
    type V = PieceView;

    open spec fn deep_view(&self) -> PieceView {
        self@
    }
}

/// A line without the carriage return that may end it.
pub open spec fn without_return(line: Seq<char>) -> Seq<char> {
    if line.len() > 0 && line.last() == '\r' {
        line.drop_last()
    } else {
        line
    }
}

/// The piece that a line is: an include of the path that follows the mark,
/// or the line itself, ended by a newline.
pub open spec fn piece_of(line: Seq<char>) -> PieceView {
    let mark = include_mark();
    if line.len() >= mark.len() && line.take(mark.len() as int) == mark {
        PieceView::Include(line.skip(mark.len() as int))
    } else {
        PieceView::Text(line.push('\n'))
    }
}

/// The pieces of the lines of `src` from position `pos` on. A line ends at a
/// newline, or at a carriage return and a newline, or where the text ends;
/// a text that ends in a newline has no line after it.
pub open spec fn pieces_from(src: Seq<char>, pos: int) -> Seq<PieceView>
    decreases src.len() - pos,
{
    if pos < 0 || pos >= src.len() {
        Seq::empty()
    } else {
        let end = scan(src, pos, Stop::Newline);
        proof {
            lemma_scan(src, pos, Stop::Newline);
        }
        if end < src.len() {
            seq![piece_of(without_return(src.subrange(pos, end)))] + pieces_from(src, end + 1)
        } else {
            seq![piece_of(src.subrange(pos, end))]
        }
    }
}

/// The pieces of a source text.
pub open spec fn pieces_of(src: Seq<char>) -> Seq<PieceView> {
    pieces_from(src, 0)
}

fn piece(chars: &Vec<char>, from: usize, to: usize, mark: &Vec<char>) -> (piece: Piece)
    requires
        from <= to <= chars.len(),
        mark@ == include_mark(),
    ensures
        piece@ == piece_of(chars@.subrange(from as int, to as int)),
{
    let ghost line = chars@.subrange(from as int, to as int);
    let n = mark.len();
    let mut marked = to - from >= n;
    let mut i: usize = 0;
    while marked && i < n
        invariant
            from <= to <= chars.len(),
            n == mark.len(),
            line == chars@.subrange(from as int, to as int),
            marked ==> i <= n <= to - from,
            marked ==> line.take(i as int) == mark@.take(i as int),
            !marked ==> !(line.len() >= n && line.take(n as int) == mark@),
        decreases n - i + (if marked { 1int } else { 0int }),
    {
        if chars[from + i] == mark[i] {
            i = i + 1;
        } else {
            marked = false;
        }
    }
    if marked {
        proof {
            assert(mark@.take(n as int) =~= mark@);
            assert(chars@.subrange(from + n, to as int) =~= line.skip(n as int));
        }
        Piece::Include(string_of(chars, from + n, to))
    } else {
        let mut text = string_of(chars, from, to);
        text.push('\n');
        Piece::Text(text)
    }
}

/// Cuts a source text into its pieces, line by line: a line that begins with
/// `#include ` names the file whose contents take its place, any other line
/// is part of the program.
pub fn split_includes(source: &str) -> (pieces: Vec<Piece>)
    ensures
        pieces.deep_view() == pieces_of(source@),
{
    let chars = chars_of(source);
    let mark = chars_of("#include ");
    let mut pieces: Vec<Piece> = Vec::new();
    let mut pos: usize = 0;
    while pos < chars.len()
        invariant
            pos <= chars.len(),
            chars@ == source@,
            mark@ == include_mark(),
            pieces_of(source@) == pieces.deep_view() + pieces_from(chars@, pos as int),
        decreases chars.len() - pos,
    {
        let end = scan_to(&chars, pos, Stop::Newline);
        let found = end < chars.len();
        let stop = if found && pos < end && chars[end - 1] == '\r' { end - 1 } else { end };
        proof {
            let raw = chars@.subrange(pos as int, end as int);
            assert(found ==> chars@.subrange(pos as int, stop as int) == without_return(raw));
        }
        pieces.push(piece(&chars, pos, stop, &mark));
        pos = if found { end + 1 } else { end };
    }
    pieces
}

} // verus!
