//! Rows of a box: border rows, blank rows and rows of text, as coloured spans.
use vstd::prelude::*;

use crate::color::{paint_text, printed_as, BoxColor};
use crate::constructs::{BoxAlign, BoxPad};
use crate::text::repeat_char;

verus! {

/// A run of text in one colour; `None` for uncoloured space.
#[derive(Debug, Clone, PartialEq, Eq)]
pub struct Span {
    pub text: String,
    pub color: Option<BoxColor>,
}

/// A span as its characters and colour.
pub type SpanView = (Seq<char>, Option<BoxColor>);

impl View for Span {
    type V = SpanView;

    open spec fn view(&self) -> SpanView {
        (self.text@, self.color)
    }
}

/// A row as the views of its spans.
pub open spec fn row_view(row: Seq<Span>) -> Seq<SpanView> {
    row.map_values(|s: Span| s@)
}

/// Rows as the views of their spans.
pub open spec fn rows_view(rows: Seq<Vec<Span>>) -> Seq<Seq<SpanView>> {
    rows.map_values(|r: Vec<Span>| row_view(r@))
}

/// Number of characters that a row shows: colour codes aside.
pub open spec fn visible_width(row: Seq<SpanView>) -> int
    decreases row.len(),
{
    if row.len() == 0 {
        0
    } else {
        visible_width(row.drop_last()) + row.last().0.len()
    }
}

/// The characters that a row shows.
pub open spec fn row_text(row: Seq<SpanView>) -> Seq<char>
    decreases row.len(),
{
    if row.len() == 0 {
        seq![]
    } else {
        row_text(row.drop_last()) + row.last().0
    }
}

/// `n` spaces.
pub open spec fn spaces(n: int) -> Seq<char> {
    Seq::new(n as nat, |_i: int| ' ')
}

/// `n` copies of `c`.
pub open spec fn run_of(c: char, n: int) -> Seq<char> {
    Seq::new(n as nat, |_i: int| c)
}

/// A horizontal border row: `margin` spaces, then `left`, `width` copies of
/// `fill` and `right`, in the border colour.
pub open spec fn border_row(
    margin: int,
    left: char,
    fill: char,
    right: char,
    width: int,
    color: BoxColor,
) -> Seq<SpanView> {
    seq![
        (spaces(margin), None),
        (seq![left], Some(color)),
        (run_of(fill, width), Some(color)),
        (seq![right], Some(color)),
    ]
}

/// A row with no text: the two vertical borders and `width` spaces between.
pub open spec fn blank_row(margin: int, vertical: char, width: int, color: BoxColor) -> Seq<
    SpanView,
> {
    seq![
        (spaces(margin), None),
        (seq![vertical], Some(color)),
        (spaces(width), None),
        (seq![vertical], Some(color)),
    ]
}

/// Spaces before and after a fragment of `len` characters in a field of
/// `field` columns: all after it for `Left`, all before it for `Right`, and
/// for `Center` half before it, the odd one after it.
pub open spec fn align_split(field: int, len: int, align: BoxAlign) -> (int, int) {
    let slack = field - len;
    match align {
        BoxAlign::Left => (0, slack),
        BoxAlign::Center => (slack / 2, slack - slack / 2),
        BoxAlign::Right => (slack, 0),
    }
}

/// A row of text: the vertical borders, the inner padding, and the fragment
/// aligned in the `width - int_pad.left - int_pad.right` columns left between.
pub open spec fn content_row(
    frag: Seq<char>,
    text_color: BoxColor,
    align: BoxAlign,
    margin: int,
    vertical: char,
    border_color: BoxColor,
    int_pad: BoxPad,
    width: int,
) -> Seq<SpanView> {
    let split = align_split(width - int_pad.spec_lr(), frag.len() as int, align);
    seq![
        (spaces(margin), None),
        (seq![vertical], Some(border_color)),
        (spaces(int_pad.left + split.0), None),
        (frag, Some(text_color)),
        (spaces(split.1 + int_pad.right), None),
        (seq![vertical], Some(border_color)),
    ]
}

/// With a fragment no wider than its field, a row of text is as wide as a border row.
pub proof fn lemma_row_widths(
    frag: Seq<char>,
    text_color: BoxColor,
    align: BoxAlign,
    margin: int,
    glyph: char,
    border_color: BoxColor,
    int_pad: BoxPad,
    width: int,
)
    requires
        margin >= 0,
        frag.len() <= width - int_pad.spec_lr(),
    ensures
        visible_width(
            content_row(frag, text_color, align, margin, glyph, border_color, int_pad, width),
        ) == margin + width + 2,
        width >= 0 ==> visible_width(blank_row(margin, glyph, width, border_color)) == margin
            + width + 2,
{
    reveal_with_fuel(visible_width, 7);
    let row = content_row(frag, text_color, align, margin, glyph, border_color, int_pad, width);
    assert(row.drop_last().drop_last().drop_last().drop_last().drop_last().drop_last().len()
        == 0);
}

/// A border row is as wide as its margin, its fill and two corners.
pub proof fn lemma_border_width(
    margin: int,
    left: char,
    fill: char,
    right: char,
    width: int,
    color: BoxColor,
)
    requires
        margin >= 0,
        width >= 0,
    ensures
        visible_width(border_row(margin, left, fill, right, width, color)) == margin + width + 2,
{
    reveal_with_fuel(visible_width, 5);
}

/// In a centred row the slack splits as `floor` before and the rest after.
pub proof fn lemma_center_placement(field: int, len: int)
    requires
        0 <= len <= field,
    ensures
        align_split(field, len, BoxAlign::Center).0 == (field - len) / 2,
        align_split(field, len, BoxAlign::Center).1 == field - len - (field - len) / 2,
        align_split(field, len, BoxAlign::Center).0 <= align_split(
            field,
            len,
            BoxAlign::Center,
        ).1 <= align_split(field, len, BoxAlign::Center).0 + 1,
{
}

/// Spaces before and after a fragment of `len` characters in a field of `field` columns.
pub fn align_padding(field: usize, len: usize, align: BoxAlign) -> (r: (usize, usize))
    requires
        len <= field,
    ensures
        r.0 == align_split(field as int, len as int, align).0,
        r.1 == align_split(field as int, len as int, align).1,
{
    let slack = field - len;
    match align {
        BoxAlign::Left => (0, slack),
        BoxAlign::Center => (slack / 2, slack - slack / 2),
        BoxAlign::Right => (slack, 0),
    }
}

fn plain(n: usize) -> (r: Span)
    ensures
        r@ == (spaces(n as int), None::<BoxColor>),
{
    Span { text: repeat_char(' ', n), color: None }
}

fn glyph(c: char, color: BoxColor) -> (r: Span)
    ensures
        r@ == (seq![c], Some(color)),
{
    let r = Span { text: repeat_char(c, 1), color: Some(color) };
    assert(r.text@ =~= seq![c]);
    r
}

/// A horizontal border row.
pub fn border_line(
    margin: usize,
    left: char,
    fill: char,
    right: char,
    width: usize,
    color: BoxColor,
) -> (r: Vec<Span>)
    ensures
        row_view(r@) == border_row(margin as int, left, fill, right, width as int, color),
{
    let r = vec![
        plain(margin),
        glyph(left, color),
        Span { text: repeat_char(fill, width), color: Some(color) },
        glyph(right, color),
    ];
    assert(row_view(r@) =~= border_row(margin as int, left, fill, right, width as int, color));
    r
}

/// A row with no text between the vertical borders.
pub fn blank_line(margin: usize, vertical: char, width: usize, color: BoxColor) -> (r: Vec<Span>)
    ensures
        row_view(r@) == blank_row(margin as int, vertical, width as int, color),
{
    let r = vec![plain(margin), glyph(vertical, color), plain(width), glyph(vertical, color)];
    assert(row_view(r@) =~= blank_row(margin as int, vertical, width as int, color));
    r
}

/// One row of text: `frag` aligned between the vertical borders and the inner padding.
pub fn render_line(
    frag: &str,
    text_color: BoxColor,
    align: BoxAlign,
    margin: usize,
    vertical: char,
    border_color: BoxColor,
    int_pad: BoxPad,
    width: usize,
) -> (r: Vec<Span>)
    requires
        int_pad.spec_lr() + frag@.len() <= width,
    ensures
        row_view(r@) == content_row(
            frag@,
            text_color,
            align,
            margin as int,
            vertical,
            border_color,
            int_pad,
            width as int,
        ),
{
    let field = width - int_pad.left - int_pad.right;
    let split = align_padding(field, frag.unicode_len(), align);
    let r = vec![
        plain(margin),
        glyph(vertical, border_color),
        plain(int_pad.left + split.0),
        Span { text: String::from_str(frag), color: Some(text_color) },
        plain(split.1 + int_pad.right),
        glyph(vertical, border_color),
    ];
    assert(row_view(r@) =~= content_row(
        frag@,
        text_color,
        align,
        margin as int,
        vertical,
        border_color,
        int_pad,
        width as int,
    ));
    r
}

/// The characters that a row shows, without colour codes.
pub fn plain_line(row: &Vec<Span>) -> (r: String)
    ensures
        r@ == row_text(row_view(row@)),
{
    let mut r = String::new();
    let mut k: usize = 0;
    while k < row.len()
        invariant
            k <= row.len(),
            r@ == row_text(row_view(row@).take(k as int)),
        decreases row.len() - k,
    {
        r.append(row[k].text.as_str());
        proof {
            assert(row_view(row@).take(k + 1).drop_last() == row_view(row@).take(k as int));
        }
        k = k + 1;
    }
    proof {
        assert(row_view(row@).take(row.len() as int) == row_view(row@));
    }
    r
}

/// Pieces joined in order.
pub open spec fn joined(pieces: Seq<Seq<char>>) -> Seq<char>
    decreases pieces.len(),
{
    if pieces.len() == 0 {
        seq![]
    } else {
        joined(pieces.drop_last()) + pieces.last()
    }
}

/// A row ready for the terminal: each span's text in order, the coloured
/// ones possibly wrapped in colour codes.
pub fn paint_line(row: &Vec<Span>) -> (r: String)
    ensures
        exists|pieces: Seq<Seq<char>>|
            {
                &&& pieces.len() == row@.len()
                &&& r@ == joined(pieces)
                &&& forall|i: int|
                    0 <= i < pieces.len() ==> printed_as(
                        #[trigger] pieces[i],
                        row@[i].text@,
                        row@[i].color,
                    )
            },
{
    let mut r = String::new();
    let mut k: usize = 0;
    let ghost mut pieces: Seq<Seq<char>> = seq![];
    while k < row.len()
        invariant
            k <= row.len(),
            pieces.len() == k,
            r@ == joined(pieces),
            forall|i: int|
                0 <= i < k ==> printed_as(#[trigger] pieces[i], row@[i].text@, row@[i].color),
        decreases row.len() - k,
    {
        let p = paint_text(row[k].text.as_str(), row[k].color);
        r.append(p.as_str());
        proof {
            let old_pieces = pieces;
            pieces = pieces.push(p@);
            assert(pieces.drop_last() == old_pieces);
        }
        k = k + 1;
    }
    r
}

} // verus!
