//! How the lines that report progress are laid out.

use vstd::prelude::*;
use crate::text::{chars_of, string_from};

verus! {

/// The width of the column that status headings are set in.
pub const HEADING_WIDTH: usize = 12;

/// A text set flush right in a column: blanks come first until the column is full. A text
/// that is wider than the column stands as it is.
pub open spec fn flush_right(text: Seq<char>, width: nat) -> Seq<char> {
    if text.len() < width {
        Seq::new((width - text.len()) as nat, |i: int| ' ') + text
    } else {
        text
    }
}

/// What follows a heading on its line: a blank, the caption, and the end of the line.
pub open spec fn caption_text(caption: Seq<char>) -> Seq<char> {
    seq![' '] + caption + seq!['\n']
}

/// Sets the heading of a status line flush right in its column.
pub fn heading_column(heading: &str) -> (r: String)
    ensures
        r@ == flush_right(heading@, HEADING_WIDTH as nat),
{
    let chars = chars_of(heading);
    let mut out: Vec<char> = Vec::new();
    let mut width: usize = chars.len();
    while width < HEADING_WIDTH
        invariant
            chars.len() <= width,
            width == chars.len() || width <= HEADING_WIDTH,
            out@ == Seq::new((width - chars.len()) as nat, |i: int| ' '),
        decreases HEADING_WIDTH - width,
    {
        out.push(' ');
        width += 1;
        assert(out@ =~= Seq::new((width - chars.len()) as nat, |i: int| ' '));
    }
    let ghost blanks = out@;
    assert(chars@.len() < HEADING_WIDTH ==> blanks.len() == HEADING_WIDTH - chars@.len());
    assert(chars@.len() >= HEADING_WIDTH ==> blanks.len() == 0);
    let mut i: usize = 0;
    while i < chars.len()
        invariant
            i <= chars.len(),
            out@ == blanks + chars@.take(i as int),
        decreases chars.len() - i,
    {
        out.push(chars[i]);
        i += 1;
        assert(out@ =~= blanks + chars@.take(i as int));
    }
    assert(chars@.take(i as int) =~= chars@);
    assert(out@ =~= flush_right(heading@, HEADING_WIDTH as nat));
    string_from(&out)
}

/// Sets the caption of a status line behind its heading.
pub fn caption_column(caption: &str) -> (r: String)
    ensures
        r@ == caption_text(caption@),
{
    let chars = chars_of(caption);
    let mut out: Vec<char> = Vec::new();
    out.push(' ');
    let mut i: usize = 0;
    while i < chars.len()
        invariant
            i <= chars.len(),
            out@ == seq![' '] + chars@.take(i as int),
        decreases chars.len() - i,
    {
        out.push(chars[i]);
        i += 1;
        assert(out@ =~= seq![' '] + chars@.take(i as int));
    }
    assert(chars@.take(i as int) =~= chars@);
    out.push('\n');
    assert(out@ =~= caption_text(caption@));
    string_from(&out)
}

} // verus!
