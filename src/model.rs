//! The mathematical model of a box and the rows it renders to.
use vstd::prelude::*;

use crate::color::{color_of, BoxColor};
use crate::constructs::{BoxAlign, BoxPad, BoxType};
use crate::render::{
    blank_row, border_row, content_row, lemma_border_width, lemma_row_widths, row_text,
    visible_width, SpanView,
};
use crate::templates::{glyphs_of, BoxTemplates};
use crate::wrap::{lemma_fragments_fit, wrap_text};

verus! {

/// One line of text with its colour code.
pub struct TextLine {
    pub text: Seq<char>,
    pub color: Seq<char>,
}

/// A segment: lines of text sharing one alignment.
pub struct SegmentModel {
    pub lines: Seq<TextLine>,
    pub align: BoxAlign,
}

/// Everything that a box is configured with.
pub struct BoxyModel {
    pub style: BoxType,
    pub border_color: Seq<char>,
    pub segments: Seq<SegmentModel>,
    pub int_padding: BoxPad,
    pub ext_padding: BoxPad,
    pub align: BoxAlign,
    pub fixed_width: usize,
    pub fixed_height: usize,
    pub total_segments: usize,
    pub segment_ratios: Seq<Seq<usize>>,
    pub terminal_width_offset: i32,
}

/// A segment of one line.
pub open spec fn one_line_segment(text: Seq<char>, color: Seq<char>, align: BoxAlign) -> SegmentModel {
    SegmentModel { lines: seq![TextLine { text, color }], align }
}

/// `seg` with one more line at its end.
pub open spec fn with_line(seg: SegmentModel, text: Seq<char>, color: Seq<char>) -> SegmentModel {
    SegmentModel { lines: seg.lines.push(TextLine { text, color }), align: seg.align }
}

/// `ratios` with entry `i` set to `r`, first grown with empty entries to reach `i`.
pub open spec fn set_ratio(ratios: Seq<Seq<usize>>, i: int, r: Seq<usize>) -> Seq<Seq<usize>> {
    let grown = if i < ratios.len() {
        ratios
    } else {
        ratios + Seq::new((i + 1 - ratios.len()) as nat, |_k: int| Seq::<usize>::empty())
    };
    grown.update(i, r)
}

/// Columns between the two corners: the fixed width less the two border
/// glyphs, or else the terminal width less the outer padding and the borders.
pub open spec fn disp_width_of(m: BoxyModel, term_width: int) -> int {
    if m.fixed_width != 0 {
        m.fixed_width - 2
    } else {
        term_width - m.ext_padding.spec_lr() - 2
    }
}

/// Columns left for text inside the inner padding.
pub open spec fn field_width_of(m: BoxyModel, term_width: int) -> int {
    disp_width_of(m, term_width) - m.int_padding.spec_lr()
}

/// Whether the box can be laid out in a terminal `term_width` columns wide.
pub open spec fn fits(m: BoxyModel, term_width: int) -> bool {
    disp_width_of(m, term_width) > 0 && field_width_of(m, term_width) > 0
}

/// Columns of the terminal that the box and both outer paddings leave free.
pub open spec fn free_room(disp_width: int, term_width: int, ext: BoxPad) -> int {
    term_width - ext.left - ext.right - disp_width - 2
}

/// Spaces before the left border of every row. The box stands within the
/// room that both outer paddings leave: at its left end for `Left`, in its
/// middle for `Center` (the odd column to the right) and at its right end for
/// `Right`. Where there is no room, it keeps the outer left padding.
pub open spec fn margin_for(disp_width: int, term_width: int, align: BoxAlign, ext: BoxPad) -> int {
    let room = free_room(disp_width, term_width, ext);
    if room <= 0 {
        ext.left as int
    } else {
        match align {
            BoxAlign::Left => ext.left as int,
            BoxAlign::Center => ext.left + room / 2,
            BoxAlign::Right => ext.left + room,
        }
    }
}

/// A box that fits in the terminal with both outer paddings keeps them under
/// every alignment, and a centred box stands between the left-aligned and the
/// right-aligned one.
pub proof fn lemma_alignment_order(disp_width: int, term_width: int, ext: BoxPad)
    requires
        disp_width >= 0,
        disp_width + ext.spec_lr() + 2 <= term_width,
    ensures
        margin_for(disp_width, term_width, BoxAlign::Left, ext) <= margin_for(
            disp_width,
            term_width,
            BoxAlign::Center,
            ext,
        ) <= margin_for(disp_width, term_width, BoxAlign::Right, ext),
        forall|a: BoxAlign|
            #![auto]
            ext.left <= margin_for(disp_width, term_width, a, ext) && margin_for(
                disp_width,
                term_width,
                a,
                ext,
            ) + disp_width + 2 + ext.right <= term_width,
{
}

/// Where and how the rows of a box are drawn.
#[derive(Debug, Clone, Copy, PartialEq, Eq, Structural)]
pub struct Frame {
    /// Spaces before the left border.
    pub margin: usize,
    /// Columns between the two borders.
    pub width: usize,
    pub glyphs: BoxTemplates,
    pub border: BoxColor,
    pub int_pad: BoxPad,
}

/// The frame of `m` in a terminal `term_width` columns wide.
pub open spec fn frame_of(m: BoxyModel, term_width: int) -> Frame {
    let d = disp_width_of(m, term_width);
    Frame {
        margin: margin_for(d, term_width, m.align, m.ext_padding) as usize,
        width: d as usize,
        glyphs: glyphs_of(m.style),
        border: color_of(m.border_color),
        int_pad: m.int_padding,
    }
}

/// The top border.
pub open spec fn top_row(f: Frame) -> Seq<SpanView> {
    let g = f.glyphs;
    border_row(f.margin as int, g.top_left, g.horizontal, g.top_right, f.width as int, f.border)
}

/// The divider between two segments.
pub open spec fn divider_row(f: Frame) -> Seq<SpanView> {
    let g = f.glyphs;
    border_row(f.margin as int, g.left_t, g.horizontal, g.right_t, f.width as int, f.border)
}

/// The bottom border.
pub open spec fn bottom_row(f: Frame) -> Seq<SpanView> {
    let g = f.glyphs;
    border_row(f.margin as int, g.bottom_left, g.horizontal, g.bottom_right, f.width as int, f.border)
}

/// The blank row between two lines of one segment.
pub open spec fn spacer_row(f: Frame) -> Seq<SpanView> {
    blank_row(f.margin as int, f.glyphs.vertical, f.width as int, f.border)
}

/// The rows of one line of text: its fragments, each aligned in the frame.
pub open spec fn text_rows(f: Frame, line: TextLine, align: BoxAlign) -> Seq<Seq<SpanView>> {
    wrap_text(line.text, f.width - f.int_pad.spec_lr()).map_values(
        |frag: Seq<char>|
            content_row(
                frag,
                color_of(line.color),
                align,
                f.margin as int,
                f.glyphs.vertical,
                f.border,
                f.int_pad,
                f.width as int,
            ),
    )
}

/// The rows of the first `k` lines of a segment, with a blank row after each
/// line but the segment's last.
pub open spec fn segment_rows(f: Frame, seg: SegmentModel, k: int) -> Seq<Seq<SpanView>>
    decreases k,
{
    if k <= 0 {
        seq![]
    } else {
        segment_rows(f, seg, k - 1) + text_rows(f, seg.lines[k - 1], seg.align) + (if k
            < seg.lines.len() {
            seq![spacer_row(f)]
        } else {
            seq![]
        })
    }
}

/// The rows of the first `k` segments, with a divider before each but the first.
pub open spec fn body_rows(f: Frame, segs: Seq<SegmentModel>, k: int) -> Seq<Seq<SpanView>>
    decreases k,
{
    if k <= 0 {
        seq![]
    } else {
        body_rows(f, segs, k - 1) + (if k > 1 {
            seq![divider_row(f)]
        } else {
            seq![]
        }) + segment_rows(f, segs[k - 1], segs[k - 1].lines.len() as int)
    }
}

/// The rows of box `m` in a terminal `term_width` columns wide.
pub open spec fn box_rows(m: BoxyModel, term_width: int) -> Seq<Seq<SpanView>> {
    let f = frame_of(m, term_width);
    seq![top_row(f)] + body_rows(f, m.segments, m.segments.len() as int) + seq![bottom_row(f)]
}

/// Whether every row in `rows` shows `w` characters.
pub open spec fn all_of_width(rows: Seq<Seq<SpanView>>, w: int) -> bool {
    forall|i: int| 0 <= i < rows.len() ==> visible_width(#[trigger] rows[i]) == w
}

proof fn lemma_concat_width(a: Seq<Seq<SpanView>>, b: Seq<Seq<SpanView>>, w: int)
    requires
        all_of_width(a, w),
        all_of_width(b, w),
    ensures
        all_of_width(a + b, w),
{
    assert forall|i: int| 0 <= i < (a + b).len() implies visible_width(#[trigger] (a + b)[i]) == w by {
        if i >= a.len() {
            assert((a + b)[i] == b[i - a.len()]);
        }
    }
}

proof fn lemma_frame_rows_width(f: Frame)
    ensures
        visible_width(top_row(f)) == f.margin + f.width + 2,
        visible_width(divider_row(f)) == f.margin + f.width + 2,
        visible_width(bottom_row(f)) == f.margin + f.width + 2,
        visible_width(spacer_row(f)) == f.margin + f.width + 2,
{
    let g = f.glyphs;
    lemma_border_width(f.margin as int, g.top_left, g.horizontal, g.top_right, f.width as int, f.border);
    lemma_border_width(f.margin as int, g.left_t, g.horizontal, g.right_t, f.width as int, f.border);
    lemma_border_width(f.margin as int, g.bottom_left, g.horizontal, g.bottom_right, f.width as int, f.border);
    let no_pad = BoxPad { top: 0, down: 0, left: 0, right: 0 };
    let (m, w) = (f.margin as int, f.width as int);
    lemma_row_widths(seq![], BoxColor::White, BoxAlign::Left, m, g.vertical, f.border, no_pad, w);
}

proof fn lemma_text_rows_width(f: Frame, line: TextLine, align: BoxAlign)
    ensures
        all_of_width(text_rows(f, line, align), f.margin + f.width + 2),
{
    let field = f.width - f.int_pad.spec_lr();
    let frags = wrap_text(line.text, field);
    lemma_fragments_fit(line.text, field);
    assert forall|i: int| 0 <= i < text_rows(f, line, align).len() implies visible_width(
        #[trigger] text_rows(f, line, align)[i],
    ) == f.margin + f.width + 2 by {
        assert(frags[i].len() <= field);
        lemma_row_widths(
            frags[i],
            color_of(line.color),
            align,
            f.margin as int,
            f.glyphs.vertical,
            f.border,
            f.int_pad,
            f.width as int,
        );
    }
}

proof fn lemma_segment_rows_width(f: Frame, seg: SegmentModel, k: int)
    ensures
        all_of_width(segment_rows(f, seg, k), f.margin + f.width + 2),
    decreases k,
{
    let w = f.margin + f.width + 2;
    if k > 0 {
        lemma_segment_rows_width(f, seg, k - 1);
        lemma_text_rows_width(f, seg.lines[k - 1], seg.align);
        lemma_frame_rows_width(f);
        lemma_concat_width(segment_rows(f, seg, k - 1), text_rows(f, seg.lines[k - 1], seg.align), w);
        let tail: Seq<Seq<SpanView>> = if k < seg.lines.len() { seq![spacer_row(f)] } else { seq![] };
        lemma_concat_width(segment_rows(f, seg, k - 1) + text_rows(f, seg.lines[k - 1], seg.align), tail, w);
    }
}

proof fn lemma_body_rows_width(f: Frame, segs: Seq<SegmentModel>, k: int)
    requires
        k <= segs.len(),
    ensures
        all_of_width(body_rows(f, segs, k), f.margin + f.width + 2),
    decreases k,
{
    let w = f.margin + f.width + 2;
    if k > 0 {
        lemma_body_rows_width(f, segs, k - 1);
        lemma_frame_rows_width(f);
        let div: Seq<Seq<SpanView>> = if k > 1 { seq![divider_row(f)] } else { seq![] };
        lemma_concat_width(body_rows(f, segs, k - 1), div, w);
        lemma_segment_rows_width(f, segs[k - 1], segs[k - 1].lines.len() as int);
        let own = segment_rows(f, segs[k - 1], segs[k - 1].lines.len() as int);
        lemma_concat_width(body_rows(f, segs, k - 1) + div, own, w);
    }
}

/// Every row of a box, borders, dividers, text and blank rows alike, shows
/// the same number of characters: the margin, the width between the borders
/// and the two borders.
pub proof fn lemma_uniform_width(m: BoxyModel, term_width: int)
    ensures
        all_of_width(
            box_rows(m, term_width),
            frame_of(m, term_width).margin + frame_of(m, term_width).width + 2,
        ),
{
    let f = frame_of(m, term_width);
    let w = f.margin + f.width + 2;
    lemma_frame_rows_width(f);
    lemma_body_rows_width(f, m.segments, m.segments.len() as int);
    lemma_concat_width(seq![top_row(f)], body_rows(f, m.segments, m.segments.len() as int), w);
    let upper = seq![top_row(f)] + body_rows(f, m.segments, m.segments.len() as int);
    lemma_concat_width(upper, seq![bottom_row(f)], w);
}

/// How many rows of `rows` equal `row`.
pub open spec fn count_of(rows: Seq<Seq<SpanView>>, row: Seq<SpanView>) -> nat
    decreases rows.len(),
{
    if rows.len() == 0 {
        0
    } else {
        count_of(rows.drop_last(), row) + if rows.last() == row {
            1nat
        } else {
            0nat
        }
    }
}

proof fn lemma_count_concat(a: Seq<Seq<SpanView>>, b: Seq<Seq<SpanView>>, row: Seq<SpanView>)
    ensures
        count_of(a + b, row) == count_of(a, row) + count_of(b, row),
    decreases b.len(),
{
    if b.len() == 0 {
        assert(a + b =~= a);
    } else {
        lemma_count_concat(a, b.drop_last(), row);
        assert((a + b).drop_last() =~= a + b.drop_last());
    }
}

proof fn lemma_count_none(rows: Seq<Seq<SpanView>>, row: Seq<SpanView>)
    requires
        forall|i: int| 0 <= i < rows.len() ==> #[trigger] rows[i] != row,
    ensures
        count_of(rows, row) == 0,
    decreases rows.len(),
{
    if rows.len() > 0 {
        lemma_count_none(rows.drop_last(), row);
    }
}

proof fn lemma_segment_has_no_divider(f: Frame, seg: SegmentModel, k: int)
    ensures
        count_of(segment_rows(f, seg, k), divider_row(f)) == 0,
    decreases k,
{
    if k > 0 {
        let d = divider_row(f);
        let own = text_rows(f, seg.lines[k - 1], seg.align);
        let tail: Seq<Seq<SpanView>> = if k < seg.lines.len() {
            seq![spacer_row(f)]
        } else {
            seq![]
        };
        lemma_segment_has_no_divider(f, seg, k - 1);
        assert forall|i: int| 0 <= i < own.len() implies #[trigger] own[i] != d by {
            assert(own[i].len() == 6);
        }
        lemma_count_none(own, d);
        assert forall|i: int| 0 <= i < tail.len() implies #[trigger] tail[i] != d by {
            assert(tail[i][2].1 != d[2].1);
        }
        lemma_count_none(tail, d);
        lemma_count_concat(segment_rows(f, seg, k - 1), own, d);
        lemma_count_concat(segment_rows(f, seg, k - 1) + own, tail, d);
    }
}

proof fn lemma_body_dividers(f: Frame, segs: Seq<SegmentModel>, k: int)
    requires
        0 <= k <= segs.len(),
    ensures
        count_of(body_rows(f, segs, k), divider_row(f)) == if k > 0 {
            k - 1
        } else {
            0
        },
    decreases k,
{
    if k > 0 {
        let d = divider_row(f);
        let div: Seq<Seq<SpanView>> = if k > 1 {
            seq![d]
        } else {
            seq![]
        };
        let own = segment_rows(f, segs[k - 1], segs[k - 1].lines.len() as int);
        lemma_body_dividers(f, segs, k - 1);
        lemma_segment_has_no_divider(f, segs[k - 1], segs[k - 1].lines.len() as int);
        lemma_count_concat(body_rows(f, segs, k - 1), div, d);
        lemma_count_concat(body_rows(f, segs, k - 1) + div, own, d);
        if k > 1 {
            reveal_with_fuel(count_of, 2);
        }
    }
}

/// Between the top and the bottom border, a box of `n` segments holds
/// `n - 1` dividers (none for no segment): none before the rows of the first
/// segment, and one just before the rows of each later segment.
pub proof fn lemma_dividers_between_segments(m: BoxyModel, term_width: int)
    ensures
        box_rows(m, term_width) == seq![top_row(frame_of(m, term_width))] + body_rows(
            frame_of(m, term_width),
            m.segments,
            m.segments.len() as int,
        ) + seq![bottom_row(frame_of(m, term_width))],
        count_of(
            body_rows(frame_of(m, term_width), m.segments, m.segments.len() as int),
            divider_row(frame_of(m, term_width)),
        ) == if m.segments.len() > 0 {
            m.segments.len() - 1
        } else {
            0
        },
        m.segments.len() > 0 ==> body_rows(frame_of(m, term_width), m.segments, 1) == segment_rows(
            frame_of(m, term_width),
            m.segments[0],
            m.segments[0].lines.len() as int,
        ),
        forall|k: int|
            1 <= k < m.segments.len() ==> #[trigger] body_rows(
                frame_of(m, term_width),
                m.segments,
                k + 1,
            ) == body_rows(frame_of(m, term_width), m.segments, k) + seq![
                divider_row(frame_of(m, term_width)),
            ] + segment_rows(
                frame_of(m, term_width),
                m.segments[k],
                m.segments[k].lines.len() as int,
            ),
{
    let f = frame_of(m, term_width);
    lemma_body_dividers(f, m.segments, m.segments.len() as int);
    if m.segments.len() > 0 {
        assert(body_rows(f, m.segments, 0) == Seq::<Seq<SpanView>>::empty());
        assert(body_rows(f, m.segments, 1) =~= segment_rows(
            f,
            m.segments[0],
            m.segments[0].lines.len() as int,
        ));
    }
}

/// The characters that each row shows.
pub open spec fn texts_of(rows: Seq<Seq<SpanView>>) -> Seq<Seq<char>> {
    rows.map_values(|r: Seq<SpanView>| row_text(r))
}

/// Whether two configurations differ at most in their colour codes.
pub open spec fn same_but_colours(a: BoxyModel, b: BoxyModel) -> bool {
    &&& a.style == b.style
    &&& a.int_padding == b.int_padding
    &&& a.ext_padding == b.ext_padding
    &&& a.align == b.align
    &&& a.fixed_width == b.fixed_width
    &&& a.segments.len() == b.segments.len()
    &&& forall|i: int|
        0 <= i < a.segments.len() ==> same_segment_text(#[trigger] a.segments[i], b.segments[i])
}

/// Whether two segments have the same alignment and the same texts.
pub open spec fn same_segment_text(a: SegmentModel, b: SegmentModel) -> bool {
    &&& a.align == b.align
    &&& a.lines.len() == b.lines.len()
    &&& forall|j: int| 0 <= j < a.lines.len() ==> (#[trigger] a.lines[j]).text == b.lines[j].text
}

proof fn lemma_row_text_by_spans(a: Seq<SpanView>, b: Seq<SpanView>)
    requires
        a.len() == b.len(),
        forall|i: int| 0 <= i < a.len() ==> (#[trigger] a[i]).0 == b[i].0,
    ensures
        row_text(a) == row_text(b),
    decreases a.len(),
{
    if a.len() > 0 {
        lemma_row_text_by_spans(a.drop_last(), b.drop_last());
    }
}

proof fn lemma_texts_concat(a: Seq<Seq<SpanView>>, b: Seq<Seq<SpanView>>)
    ensures
        texts_of(a + b) == texts_of(a) + texts_of(b),
{
    assert(texts_of(a + b) =~= texts_of(a) + texts_of(b));
}

/// Frames that differ at most in the border colour.
pub open spec fn same_frame_shape(f: Frame, g: Frame) -> bool {
    f.margin == g.margin && f.width == g.width && f.glyphs == g.glyphs && f.int_pad == g.int_pad
}

proof fn lemma_frame_texts(f: Frame, g: Frame)
    requires
        same_frame_shape(f, g),
    ensures
        row_text(top_row(f)) == row_text(top_row(g)),
        row_text(divider_row(f)) == row_text(divider_row(g)),
        row_text(bottom_row(f)) == row_text(bottom_row(g)),
        row_text(spacer_row(f)) == row_text(spacer_row(g)),
{
    lemma_row_text_by_spans(top_row(f), top_row(g));
    lemma_row_text_by_spans(divider_row(f), divider_row(g));
    lemma_row_text_by_spans(bottom_row(f), bottom_row(g));
    lemma_row_text_by_spans(spacer_row(f), spacer_row(g));
}

proof fn lemma_text_rows_texts(f: Frame, g: Frame, a: TextLine, b: TextLine, align: BoxAlign)
    requires
        same_frame_shape(f, g),
        a.text == b.text,
    ensures
        texts_of(text_rows(f, a, align)) == texts_of(text_rows(g, b, align)),
{
    let x = text_rows(f, a, align);
    let y = text_rows(g, b, align);
    assert forall|i: int| 0 <= i < x.len() implies texts_of(x)[i] == texts_of(y)[i] by {
        lemma_row_text_by_spans(x[i], y[i]);
    }
    assert(texts_of(x) =~= texts_of(y));
}

proof fn lemma_segment_texts(f: Frame, g: Frame, a: SegmentModel, b: SegmentModel, k: int)
    requires
        same_frame_shape(f, g),
        same_segment_text(a, b),
        k <= a.lines.len(),
    ensures
        texts_of(segment_rows(f, a, k)) == texts_of(segment_rows(g, b, k)),
    decreases k,
{
    if k > 0 {
        lemma_segment_texts(f, g, a, b, k - 1);
        lemma_text_rows_texts(f, g, a.lines[k - 1], b.lines[k - 1], a.align);
        lemma_frame_texts(f, g);
        let ta: Seq<Seq<SpanView>> = if k < a.lines.len() {
            seq![spacer_row(f)]
        } else {
            seq![]
        };
        let tb: Seq<Seq<SpanView>> = if k < b.lines.len() {
            seq![spacer_row(g)]
        } else {
            seq![]
        };
        assert(texts_of(ta) =~= texts_of(tb));
        let pa = segment_rows(f, a, k - 1);
        let pb = segment_rows(g, b, k - 1);
        let oa = text_rows(f, a.lines[k - 1], a.align);
        let ob = text_rows(g, b.lines[k - 1], b.align);
        lemma_texts_concat(pa, oa);
        lemma_texts_concat(pb, ob);
        lemma_texts_concat(pa + oa, ta);
        lemma_texts_concat(pb + ob, tb);
    }
}

proof fn lemma_body_texts(f: Frame, g: Frame, a: Seq<SegmentModel>, b: Seq<SegmentModel>, k: int)
    requires
        same_frame_shape(f, g),
        a.len() == b.len(),
        forall|i: int| 0 <= i < a.len() ==> same_segment_text(#[trigger] a[i], b[i]),
        k <= a.len(),
    ensures
        texts_of(body_rows(f, a, k)) == texts_of(body_rows(g, b, k)),
    decreases k,
{
    if k > 0 {
        lemma_body_texts(f, g, a, b, k - 1);
        lemma_frame_texts(f, g);
        let da: Seq<Seq<SpanView>> = if k > 1 {
            seq![divider_row(f)]
        } else {
            seq![]
        };
        let db: Seq<Seq<SpanView>> = if k > 1 {
            seq![divider_row(g)]
        } else {
            seq![]
        };
        assert(texts_of(da) =~= texts_of(db));
        let sa = segment_rows(f, a[k - 1], a[k - 1].lines.len() as int);
        let sb = segment_rows(g, b[k - 1], b[k - 1].lines.len() as int);
        lemma_segment_texts(f, g, a[k - 1], b[k - 1], a[k - 1].lines.len() as int);
        lemma_texts_concat(body_rows(f, a, k - 1), da);
        lemma_texts_concat(body_rows(g, b, k - 1), db);
        lemma_texts_concat(body_rows(f, a, k - 1) + da, sa);
        lemma_texts_concat(body_rows(g, b, k - 1) + db, sb);
    }
}

/// Colour codes never move or change a character: two configurations that
/// differ only in colour codes, a code that cannot be read among them, show
/// the same characters on the same rows. A code that cannot be read paints
/// in white (`color_of` is `White` wherever `hex_parse` is `None`).
pub proof fn lemma_colours_keep_text(a: BoxyModel, b: BoxyModel, term_width: int)
    requires
        same_but_colours(a, b),
    ensures
        texts_of(box_rows(a, term_width)) == texts_of(box_rows(b, term_width)),
{
    let f = frame_of(a, term_width);
    let g = frame_of(b, term_width);
    lemma_frame_texts(f, g);
    lemma_body_texts(f, g, a.segments, b.segments, a.segments.len() as int);
    let ba = body_rows(f, a.segments, a.segments.len() as int);
    let bb = body_rows(g, b.segments, b.segments.len() as int);
    assert(texts_of(seq![top_row(f)]) =~= texts_of(seq![top_row(g)]));
    assert(texts_of(seq![bottom_row(f)]) =~= texts_of(seq![bottom_row(g)]));
    lemma_texts_concat(seq![top_row(f)], ba);
    lemma_texts_concat(seq![top_row(g)], bb);
    lemma_texts_concat(seq![top_row(f)] + ba, seq![bottom_row(f)]);
    lemma_texts_concat(seq![top_row(g)] + bb, seq![bottom_row(g)]);
}

} // verus!
