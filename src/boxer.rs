//! The text box and its builder.
use vstd::prelude::*;

use crate::color::resolve_color;
use crate::constructs::{BoxAlign, BoxError, BoxPad, BoxType};
use crate::model::{
    body_rows, bottom_row, box_rows, disp_width_of, divider_row, fits, frame_of, margin_for,
    one_line_segment, segment_rows, set_ratio, spacer_row, text_rows, top_row, with_line,
    BoxyModel, Frame, SegmentModel, TextLine,
};
use crate::render::{blank_line, border_line, plain_line, render_line, row_text, row_view, rows_view, Span};
use crate::templates::map_box_type;
use crate::wrap::{lemma_fragments_fit, strings_view, text_wrap_vec};

verus! {

/// A text box: segments of text lines, border style and colour, padding,
/// alignment and an optional fixed size.
#[derive(Debug)]
pub struct Boxy {
    type_enum: BoxType,
    data: Vec<Vec<String>>,
    sect_count: usize,
    box_col: String,
    colors: Vec<Vec<String>>,
    int_padding: BoxPad,
    ext_padding: BoxPad,
    align: BoxAlign,
    seg_align: Vec<BoxAlign>,
    fixed_width: usize,
    fixed_height: usize,
    seg_cols_ratio: Vec<Vec<usize>>,
    tot_seg: usize,
    terminal_width_offset: i32,
}

/// Segment `i` as text lines with their colours.
spec fn segment_of(
    data: Seq<Vec<String>>,
    colors: Seq<Vec<String>>,
    aligns: Seq<BoxAlign>,
    i: int,
) -> SegmentModel {
    SegmentModel {
        lines: Seq::new(
            data[i]@.len(),
            |j: int| TextLine { text: data[i]@[j]@, color: colors[i]@[j]@ },
        ),
        align: aligns[i],
    }
}

/// The ratios as plain sequences.
spec fn ratios_of(r: Seq<Vec<usize>>) -> Seq<Seq<usize>> {
    r.map_values(|v: Vec<usize>| v@)
}

impl View for Boxy {
    type V = BoxyModel;

    closed spec fn view(&self) -> BoxyModel {
        BoxyModel {
            style: self.type_enum,
            border_color: self.box_col@,
            segments: Seq::new(
                self.data@.len(),
                |i: int| segment_of(self.data@, self.colors@, self.seg_align@, i),
            ),
            int_padding: self.int_padding,
            ext_padding: self.ext_padding,
            align: self.align,
            fixed_width: self.fixed_width,
            fixed_height: self.fixed_height,
            total_segments: self.tot_seg,
            segment_ratios: ratios_of(self.seg_cols_ratio@),
            terminal_width_offset: self.terminal_width_offset,
        }
    }
}

/// Spaces that shift the whole box right of its outer left padding, so that
/// it stands as `align` asks within the room that both outer paddings leave
/// in a terminal `term_size` columns wide.
pub fn align_offset(disp_width: usize, term_size: usize, align: BoxAlign, padding: BoxPad) -> (r: usize)
    ensures
        r == margin_for(disp_width as int, term_size as int, align, padding) - padding.left,
{
    if term_size <= disp_width || term_size - disp_width <= 2 {
        return 0;
    }
    let outside = term_size - disp_width - 2;
    if outside <= padding.left || outside - padding.left <= padding.right {
        return 0;
    }
    let room = outside - padding.left - padding.right;
    match align {
        BoxAlign::Left => 0,
        BoxAlign::Center => room / 2,
        BoxAlign::Right => room,
    }
}

/// Appends the rows of one line of text.
fn push_text_rows(f: Frame, text: &str, color: &str, align: BoxAlign, rows: &mut Vec<Vec<Span>>)
    requires
        f.int_pad.spec_lr() < f.width,
    ensures
        rows_view(final(rows)@) == rows_view(old(rows)@) + text_rows(
            f,
            TextLine { text: text@, color: color@ },
            align,
        ),
{
    let ghost line = TextLine { text: text@, color: color@ };
    let ghost start = rows@;
    let text_color = resolve_color(color);
    let field = f.width - f.int_pad.left - f.int_pad.right;
    let frags = match text_wrap_vec(text, field) {
        Ok(v) => v,
        Err(_) => {
            return;
        },
    };
    proof {
        lemma_fragments_fit(text@, field as int);
    }
    let n = frags.len();
    for k in 0..n
        invariant
            n == frags@.len(),
            field == f.width - f.int_pad.spec_lr(),
            strings_view(frags@) == crate::wrap::wrap_text(text@, field as int),
            forall|i: int| 0 <= i < n ==> (#[trigger] strings_view(frags@)[i]).len() <= field,
            text_color == crate::color::color_of(color@),
            line == (TextLine { text: text@, color: color@ }),
            rows_view(rows@) == rows_view(start) + text_rows(f, line, align).take(k as int),
    {
        let ghost before = rows@;
        assert(strings_view(frags@)[k as int] == frags@[k as int]@);
        rows.push(
            render_line(
                frags[k].as_str(),
                text_color,
                align,
                f.margin,
                f.glyphs.vertical,
                f.border,
                f.int_pad,
                f.width,
            ),
        );
        assert(rows_view(rows@) =~= rows_view(before).push(row_view(rows@.last()@)));
        let ghost all = text_rows(f, line, align);
        assert(all.take(k + 1) =~= all.take(k as int).push(all[k as int]));
    }
    assert(text_rows(f, line, align).take(n as int) =~= text_rows(f, line, align));
}

/// The configuration of a box with no text yet.
pub open spec fn empty_model(style: BoxType, border_color: Seq<char>) -> BoxyModel {
    BoxyModel {
        style,
        border_color,
        segments: seq![],
        int_padding: BoxPad { top: 0, down: 0, left: 0, right: 0 },
        ext_padding: BoxPad { top: 0, down: 0, left: 0, right: 0 },
        align: BoxAlign::Left,
        fixed_width: 0,
        fixed_height: 0,
        total_segments: 0,
        segment_ratios: seq![],
        terminal_width_offset: -20i32,
    }
}

impl Boxy {
    /// Whether the stored lines, colours and alignments match up.
    pub closed spec fn wf(&self) -> bool {
        &&& self.data@.len() == self.colors@.len()
        &&& self.data@.len() == self.seg_align@.len()
        &&& self.sect_count == self.data@.len()
        &&& forall|i: int|
            0 <= i < self.data@.len() ==> (#[trigger] self.data@[i])@.len()
                == self.colors@[i]@.len()
    }

    /// A box with border style `box_type` and border colour `box_color`.
    pub fn new(box_type: BoxType, box_color: &str) -> (r: Boxy)
        ensures
            r.wf(),
            r@ == empty_model(box_type, box_color@),
    {
        let r = Boxy {
            type_enum: box_type,
            data: Vec::new(),
            sect_count: 0,
            box_col: String::from_str(box_color),
            colors: Vec::new(),
            int_padding: BoxPad::new(),
            ext_padding: BoxPad::new(),
            align: BoxAlign::Left,
            seg_align: Vec::new(),
            fixed_width: 0,
            fixed_height: 0,
            seg_cols_ratio: Vec::new(),
            tot_seg: 0,
            terminal_width_offset: -20i32,
        };
        assert(r@.segments =~= seq![]);
        assert(r@.segment_ratios =~= seq![]);
        r
    }

    /// Number of segments.
    pub fn segment_count(&self) -> (r: usize)
        requires
            self.wf(),
        ensures
            r == self@.segments.len(),
    {
        self.sect_count
    }

    /// A builder for a box, to configure it by chained calls.
    pub fn builder() -> (r: BoxyBuilder)
        ensures
            r.wf(),
            r@ == (BoxyModel { terminal_width_offset: 0, ..empty_model(BoxType::Single, seq![]) }),
    {
        BoxyBuilder::new()
    }

    /// Adds a segment of one line, set off from the segment before by a divider.
    pub fn add_text_sgmt(&mut self, data_string: &str, color: &str, text_align: BoxAlign)
        requires
            old(self).wf(),
        ensures
            final(self).wf(),
            final(self)@ == (BoxyModel {
                segments: old(self)@.segments.push(
                    one_line_segment(data_string@, color@, text_align),
                ),
                ..old(self)@
            }),
    {
        let ghost before = self@;
        self.data.push(vec![String::from_str(data_string)]);
        self.colors.push(vec![String::from_str(color)]);
        self.seg_align.push(text_align);
        self.sect_count = self.data.len();
        assert(self@.segments =~= before.segments.push(
            one_line_segment(data_string@, color@, text_align),
        )) by {
            let n = before.segments.len() as int;
            assert(self@.segments[n].lines =~= seq![TextLine { text: data_string@, color: color@ }]);
            assert forall|i: int| 0 <= i < n implies self@.segments[i] == before.segments[i] by {
                assert(self@.segments[i].lines =~= before.segments[i].lines);
            }
        }
    }

    /// Adds a line at the end of segment `seg_index`.
    pub fn add_text_line_indx(&mut self, data_string: &str, color: &str, seg_index: usize)
        requires
            old(self).wf(),
            seg_index < old(self)@.segments.len(),
        ensures
            final(self).wf(),
            final(self)@ == (BoxyModel {
                segments: old(self)@.segments.update(
                    seg_index as int,
                    with_line(old(self)@.segments[seg_index as int], data_string@, color@),
                ),
                ..old(self)@
            }),
    {
        let ghost before = self@;
        self.data[seg_index].push(String::from_str(data_string));
        self.colors[seg_index].push(String::from_str(color));
        assert(self@.segments =~= before.segments.update(
            seg_index as int,
            with_line(before.segments[seg_index as int], data_string@, color@),
        )) by {
            assert(self@.segments[seg_index as int].lines =~= before.segments[seg_index as int].lines.push(
                TextLine { text: data_string@, color: color@ },
            ));
            assert forall|i: int| 0 <= i < before.segments.len() && i != seg_index implies self@.segments[i]
                == before.segments[i] by {
                assert(self@.segments[i].lines =~= before.segments[i].lines);
            }
        }
    }

    /// Adds a line at the end of the last segment.
    pub fn add_text_line(&mut self, data_string: &str, color: &str)
        requires
            old(self).wf(),
            old(self)@.segments.len() > 0,
        ensures
            final(self).wf(),
            final(self)@ == (BoxyModel {
                segments: old(self)@.segments.update(
                    old(self)@.segments.len() - 1,
                    with_line(old(self)@.segments.last(), data_string@, color@),
                ),
                ..old(self)@
            }),
    {
        let last = self.sect_count - 1;
        self.add_text_line_indx(data_string, color, last);
    }

    /// Adds a line at the end of the last segment, or makes it the first,
    /// left-aligned segment when there is none.
    pub fn add_line(&mut self, data_string: &str, color: &str)
        requires
            old(self).wf(),
        ensures
            final(self).wf(),
            old(self)@.segments.len() == 0 ==> final(self)@ == (BoxyModel {
                segments: seq![one_line_segment(data_string@, color@, BoxAlign::Left)],
                ..old(self)@
            }),
            old(self)@.segments.len() > 0 ==> final(self)@ == (BoxyModel {
                segments: old(self)@.segments.update(
                    old(self)@.segments.len() - 1,
                    with_line(old(self)@.segments.last(), data_string@, color@),
                ),
                ..old(self)@
            }),
    {
        if self.sect_count == 0 {
            self.add_text_sgmt(data_string, color, BoxAlign::Left);
            assert(self@.segments =~= seq![one_line_segment(data_string@, color@, BoxAlign::Left)]);
        } else {
            self.add_text_line(data_string, color);
        }
    }

    /// Sets where the box stands in the terminal.
    pub fn set_align(&mut self, align: BoxAlign)
        requires
            old(self).wf(),
        ensures
            final(self).wf(),
            final(self)@ == (BoxyModel { align, ..old(self)@ }),
    {
        self.align = align;
    }

    /// Sets the padding between the border and the text.
    pub fn set_int_padding(&mut self, int_padding: BoxPad)
        requires
            old(self).wf(),
        ensures
            final(self).wf(),
            final(self)@ == (BoxyModel { int_padding, ..old(self)@ }),
    {
        self.int_padding = int_padding;
    }

    /// Sets the padding between the terminal's edges and the border.
    pub fn set_ext_padding(&mut self, ext_padding: BoxPad)
        requires
            old(self).wf(),
        ensures
            final(self).wf(),
            final(self)@ == (BoxyModel { ext_padding, ..old(self)@ }),
    {
        self.ext_padding = ext_padding;
    }

    /// Sets the outer and the inner padding.
    pub fn set_padding(&mut self, ext_padding: BoxPad, int_padding: BoxPad)
        requires
            old(self).wf(),
        ensures
            final(self).wf(),
            final(self)@ == (BoxyModel { ext_padding, int_padding, ..old(self)@ }),
    {
        self.int_padding = int_padding;
        self.ext_padding = ext_padding;
    }

    /// Fixes the width of the box, borders included; zero sizes it to the terminal.
    pub fn set_width(&mut self, width: usize)
        requires
            old(self).wf(),
        ensures
            final(self).wf(),
            final(self)@ == (BoxyModel { fixed_width: width, ..old(self)@ }),
    {
        self.fixed_width = width;
    }

    /// Records a fixed height; rendering does not use it.
    pub fn set_height(&mut self, height: usize)
        requires
            old(self).wf(),
        ensures
            final(self).wf(),
            final(self)@ == (BoxyModel { fixed_height: height, ..old(self)@ }),
    {
        self.fixed_height = height;
    }

    /// Sets the border style.
    pub fn set_type(&mut self, box_type: BoxType)
        requires
            old(self).wf(),
        ensures
            final(self).wf(),
            final(self)@ == (BoxyModel { style: box_type, ..old(self)@ }),
    {
        self.type_enum = box_type;
    }

    /// Sets the border colour, as a hex code.
    pub fn set_color(&mut self, color: &str)
        requires
            old(self).wf(),
        ensures
            final(self).wf(),
            final(self)@ == (BoxyModel { border_color: color@, ..old(self)@ }),
    {
        self.box_col = String::from_str(color);
    }

    /// Records a total number of segments; it adds no segment.
    pub fn set_total_segments(&mut self, total: usize)
        requires
            old(self).wf(),
        ensures
            final(self).wf(),
            final(self)@ == (BoxyModel { total_segments: total, ..old(self)@ }),
    {
        self.tot_seg = total;
    }

    /// Records column ratios for segment `seg_index`; rendering does not use them.
    pub fn set_segment_ratios(&mut self, seg_index: usize, ratios: Vec<usize>)
        requires
            old(self).wf(),
        ensures
            final(self).wf(),
            final(self)@ == (BoxyModel {
                segment_ratios: set_ratio(old(self)@.segment_ratios, seg_index as int, ratios@),
                ..old(self)@
            }),
    {
        let ghost before = self@;
        let ghost r0 = self.seg_cols_ratio@;
        while self.seg_cols_ratio.len() <= seg_index
            invariant
                r0.len() <= self.seg_cols_ratio@.len(),
                self.seg_cols_ratio@.len() == r0.len() || self.seg_cols_ratio@.len() <= seg_index + 1,
                self.seg_cols_ratio@.subrange(0, r0.len() as int) == r0,
                forall|k: int|
                    r0.len() <= k < self.seg_cols_ratio@.len() ==> (
                    #[trigger] self.seg_cols_ratio@[k])@ == Seq::<usize>::empty(),
                self@ == (BoxyModel { segment_ratios: self@.segment_ratios, ..before }),
                self.wf(),
            decreases seg_index + 1 - self.seg_cols_ratio.len(),
        {
            self.seg_cols_ratio.push(Vec::new());
        }
        let ghost grown = self.seg_cols_ratio@;
        self.seg_cols_ratio.set(seg_index, ratios);
        assert(self@.segment_ratios =~= set_ratio(before.segment_ratios, seg_index as int, ratios@));
    }

    /// Columns between the two corners, or `None` when none are left.
    fn display_width(&self, term_width: usize) -> (r: Option<usize>)
        ensures
            r is Some <==> disp_width_of(self@, term_width as int) > 0,
            r is Some ==> r->0 == disp_width_of(self@, term_width as int),
    {
        if self.fixed_width != 0 {
            if self.fixed_width > 2 {
                Some(self.fixed_width - 2)
            } else {
                None
            }
        } else {
            match self.ext_padding.left.checked_add(self.ext_padding.right) {
                Some(outer) => if outer < term_width && term_width - outer > 2 {
                    Some(term_width - outer - 2)
                } else {
                    None
                },
                None => None,
            }
        }
    }

    /// Appends the rows of segment `i`.
    fn push_segment(&self, i: usize, f: Frame, rows: &mut Vec<Vec<Span>>)
        requires
            self.wf(),
            i < self@.segments.len(),
            f.int_pad.spec_lr() < f.width,
        ensures
            rows_view(final(rows)@) == rows_view(old(rows)@) + segment_rows(
                f,
                self@.segments[i as int],
                self@.segments[i as int].lines.len() as int,
            ),
    {
        let ghost seg = self@.segments[i as int];
        let ghost start = rows@;
        let n = self.data[i].len();
        for j in 0..n
            invariant
                self.wf(),
                i < self@.segments.len(),
                f.int_pad.spec_lr() < f.width,
                seg == self@.segments[i as int],
                n == seg.lines.len(),
                rows_view(rows@) == rows_view(start) + segment_rows(f, seg, j as int),
        {
            let ghost before = rows@;
            assert(seg.lines[j as int] == (TextLine {
                text: self.data@[i as int]@[j as int]@,
                color: self.colors@[i as int]@[j as int]@,
            }));
            push_text_rows(f, self.data[i][j].as_str(), self.colors[i][j].as_str(), self.seg_align[i], rows);
            let ghost mid = rows@;
            if j + 1 < n {
                rows.push(blank_line(f.margin, f.glyphs.vertical, f.width, f.border));
                assert(rows_view(rows@) =~= rows_view(mid).push(spacer_row(f)));
            }
            assert(rows_view(rows@) =~= rows_view(start) + segment_rows(f, seg, j + 1));
        }
    }

    /// The rows of the box in a terminal `term_width` columns wide, each a
    /// list of coloured spans: the top border, the segments with a divider
    /// between each two, and the bottom border.
    ///
    /// Fails with `InvalidWidth` when no column is left between the borders,
    /// or none for text inside the inner padding.
    pub fn render(&self, term_width: usize) -> (r: Result<Vec<Vec<Span>>, BoxError>)
        requires
            self.wf(),
        ensures
            r is Err <==> !fits(self@, term_width as int),
            r is Err ==> r == Err::<Vec<Vec<Span>>, BoxError>(BoxError::InvalidWidth),
            r is Ok ==> rows_view(r->Ok_0@) == box_rows(self@, term_width as int),
    {
        let width = match self.display_width(term_width) {
            Some(w) => w,
            None => {
                return Err(BoxError::InvalidWidth);
            },
        };
        match self.int_padding.left.checked_add(self.int_padding.right) {
            Some(inner) => {
                if inner >= width {
                    return Err(BoxError::InvalidWidth);
                }
            },
            None => {
                return Err(BoxError::InvalidWidth);
            },
        }
        let offset = align_offset(width, term_width, self.align, self.ext_padding);
        let f = Frame {
            margin: self.ext_padding.left + offset,
            width,
            glyphs: map_box_type(self.type_enum),
            border: resolve_color(self.box_col.as_str()),
            int_pad: self.int_padding,
        };
        assert(f == frame_of(self@, term_width as int));
        let g = f.glyphs;
        let mut rows: Vec<Vec<Span>> = Vec::new();
        rows.push(border_line(f.margin, g.top_left, g.horizontal, g.top_right, f.width, f.border));
        assert(rows_view(rows@) =~= seq![top_row(f)]);
        let ghost segs = self@.segments;
        for i in 0..self.sect_count
            invariant
                self.wf(),
                segs == self@.segments,
                f.int_pad.spec_lr() < f.width,
                g == f.glyphs,
                rows_view(rows@) == seq![top_row(f)] + body_rows(f, segs, i as int),
        {
            let ghost before = rows@;
            if i > 0 {
                rows.push(border_line(f.margin, g.left_t, g.horizontal, g.right_t, f.width, f.border));
                assert(rows_view(rows@) =~= rows_view(before).push(divider_row(f)));
            }
            let ghost mid = rows@;
            self.push_segment(i, f, &mut rows);
            assert(rows_view(rows@) =~= seq![top_row(f)] + body_rows(f, segs, i + 1));
        }
        let ghost before = rows@;
        rows.push(border_line(f.margin, g.bottom_left, g.horizontal, g.bottom_right, f.width, f.border));
        assert(rows_view(rows@) =~= rows_view(before).push(bottom_row(f)));
        Ok(rows)
    }

    /// The rows of the box as plain text, without colour codes.
    pub fn render_plain(&self, term_width: usize) -> (r: Result<Vec<String>, BoxError>)
        requires
            self.wf(),
        ensures
            r is Err <==> !fits(self@, term_width as int),
            r is Err ==> r == Err::<Vec<String>, BoxError>(BoxError::InvalidWidth),
            r is Ok ==> strings_view(r->Ok_0@) == box_rows(self@, term_width as int).map_values(
                |row| row_text(row),
            ),
    {
        let rows = match self.render(term_width) {
            Ok(rows) => rows,
            Err(e) => {
                return Err(e);
            },
        };
        let mut out: Vec<String> = Vec::new();
        for k in 0..rows.len()
            invariant
                rows_view(rows@) == box_rows(self@, term_width as int),
                strings_view(out@) == rows_view(rows@).take(k as int).map_values(|row| row_text(row)),
        {
            let ghost before = out@;
            let line = plain_line(&rows[k]);
            assert(rows_view(rows@)[k as int] == row_view(rows@[k as int]@));
            out.push(line);
            assert(strings_view(out@) =~= strings_view(before).push(line@));
            assert(strings_view(out@) =~= rows_view(rows@).take(k + 1).map_values(|row| row_text(row)));
        }
        assert(rows_view(rows@).take(rows.len() as int) =~= rows_view(rows@));
        Ok(out)
    }
}

impl Default for Boxy {
    fn default() -> (r: Boxy)
        ensures
            r.wf(),
            r@ == empty_model(BoxType::Single, "#ffffff"@),
    {
        Boxy::new(BoxType::Single, "#ffffff")
    }
}

/// Rendering the same configuration twice, in terminals of the same width,
/// gives the same rows.
pub proof fn lemma_render_repeatable(
    a: BoxyModel,
    b: BoxyModel,
    term_width: int,
    first: Seq<Vec<Span>>,
    second: Seq<Vec<Span>>,
)
    requires
        a == b,
        rows_view(first) == box_rows(a, term_width),
        rows_view(second) == box_rows(b, term_width),
    ensures
        rows_view(first) == rows_view(second),
{
}

/// Configures a box by chained calls and hands it over with `build`.
#[derive(Debug)]
pub struct BoxyBuilder {
    inner: Boxy,
}

impl View for BoxyBuilder {
    type V = BoxyModel;

    closed spec fn view(&self) -> BoxyModel {
        self.inner@
    }
}

impl BoxyBuilder {
    /// Whether the box being built is well formed.
    pub closed spec fn wf(&self) -> bool {
        self.inner.wf()
    }

    /// A builder for a box with single-line borders, no border colour code and no text.
    pub fn new() -> (r: BoxyBuilder)
        ensures
            r.wf(),
            r@ == (BoxyModel { terminal_width_offset: 0, ..empty_model(BoxType::Single, seq![]) }),
    {
        let mut inner = Boxy::new(BoxType::Single, "");
        inner.terminal_width_offset = 0;
        proof {
            reveal_strlit("");
            assert(""@ =~= Seq::<char>::empty());
        }
        BoxyBuilder { inner }
    }

    /// Sets the border style.
    pub fn box_type(self, box_type: BoxType) -> (r: BoxyBuilder)
        requires
            self.wf(),
        ensures
            r.wf(),
            r@ == (BoxyModel { style: box_type, ..self@ }),
    {
        let mut inner = self.inner;
        inner.set_type(box_type);
        BoxyBuilder { inner }
    }

    /// Sets the border colour, as a hex code.
    pub fn color(self, box_color: &str) -> (r: BoxyBuilder)
        requires
            self.wf(),
        ensures
            r.wf(),
            r@ == (BoxyModel { border_color: box_color@, ..self@ }),
    {
        let mut inner = self.inner;
        inner.set_color(box_color);
        BoxyBuilder { inner }
    }

    /// Adds a segment of one line.
    pub fn add_segment(self, text: &str, color: &str, text_align: BoxAlign) -> (r: BoxyBuilder)
        requires
            self.wf(),
        ensures
            r.wf(),
            r@ == (BoxyModel {
                segments: self@.segments.push(one_line_segment(text@, color@, text_align)),
                ..self@
            }),
    {
        let mut inner = self.inner;
        inner.add_text_sgmt(text, color, text_align);
        BoxyBuilder { inner }
    }

    /// Adds a line to the last segment, or makes it the first, left-aligned
    /// segment when there is none.
    pub fn add_line(self, text: &str, color: &str) -> (r: BoxyBuilder)
        requires
            self.wf(),
        ensures
            r.wf(),
            self@.segments.len() == 0 ==> r@ == (BoxyModel {
                segments: seq![one_line_segment(text@, color@, BoxAlign::Left)],
                ..self@
            }),
            self@.segments.len() > 0 ==> r@ == (BoxyModel {
                segments: self@.segments.update(
                    self@.segments.len() - 1,
                    with_line(self@.segments.last(), text@, color@),
                ),
                ..self@
            }),
    {
        let mut inner = self.inner;
        inner.add_line(text, color);
        BoxyBuilder { inner }
    }

    /// Sets where the box stands in the terminal.
    pub fn align(self, alignment: BoxAlign) -> (r: BoxyBuilder)
        requires
            self.wf(),
        ensures
            r.wf(),
            r@ == (BoxyModel { align: alignment, ..self@ }),
    {
        let mut inner = self.inner;
        inner.set_align(alignment);
        BoxyBuilder { inner }
    }

    /// Sets the padding between the border and the text.
    pub fn internal_padding(self, padding: BoxPad) -> (r: BoxyBuilder)
        requires
            self.wf(),
        ensures
            r.wf(),
            r@ == (BoxyModel { int_padding: padding, ..self@ }),
    {
        let mut inner = self.inner;
        inner.set_int_padding(padding);
        BoxyBuilder { inner }
    }

    /// Sets the padding between the terminal's edges and the border.
    pub fn external_padding(self, padding: BoxPad) -> (r: BoxyBuilder)
        requires
            self.wf(),
        ensures
            r.wf(),
            r@ == (BoxyModel { ext_padding: padding, ..self@ }),
    {
        let mut inner = self.inner;
        inner.set_ext_padding(padding);
        BoxyBuilder { inner }
    }

    /// Sets the outer and the inner padding.
    pub fn padding(self, external: BoxPad, internal: BoxPad) -> (r: BoxyBuilder)
        requires
            self.wf(),
        ensures
            r.wf(),
            r@ == (BoxyModel { ext_padding: external, int_padding: internal, ..self@ }),
    {
        let mut inner = self.inner;
        inner.set_padding(external, internal);
        BoxyBuilder { inner }
    }

    /// Fixes the width of the box, borders included; zero sizes it to the terminal.
    pub fn width(self, width: usize) -> (r: BoxyBuilder)
        requires
            self.wf(),
        ensures
            r.wf(),
            r@ == (BoxyModel { fixed_width: width, ..self@ }),
    {
        let mut inner = self.inner;
        inner.set_width(width);
        BoxyBuilder { inner }
    }

    /// Records a fixed height; rendering does not use it.
    pub fn height(self, height: usize) -> (r: BoxyBuilder)
        requires
            self.wf(),
        ensures
            r.wf(),
            r@ == (BoxyModel { fixed_height: height, ..self@ }),
    {
        let mut inner = self.inner;
        inner.set_height(height);
        BoxyBuilder { inner }
    }

    /// Records column ratios for segment `seg_index`; rendering does not use them.
    pub fn segment_ratios(self, seg_index: usize, ratios: Vec<usize>) -> (r: BoxyBuilder)
        requires
            self.wf(),
        ensures
            r.wf(),
            r@ == (BoxyModel {
                segment_ratios: set_ratio(self@.segment_ratios, seg_index as int, ratios@),
                ..self@
            }),
    {
        let mut inner = self.inner;
        inner.set_segment_ratios(seg_index, ratios);
        BoxyBuilder { inner }
    }

    /// Records an offset to the terminal width; rendering does not use it.
    pub fn set_terminal_width_offset(self, offset: i32) -> (r: BoxyBuilder)
        requires
            self.wf(),
        ensures
            r.wf(),
            r@ == (BoxyModel { terminal_width_offset: offset, ..self@ }),
    {
        let mut inner = self.inner;
        inner.terminal_width_offset = offset;
        BoxyBuilder { inner }
    }

    /// The configured box, its total segment count set to its number of segments.
    pub fn build(self) -> (r: Boxy)
        requires
            self.wf(),
        ensures
            r.wf(),
            r@ == (BoxyModel { total_segments: self@.segments.len() as usize, ..self@ }),
    {
        let mut inner = self.inner;
        let n = inner.sect_count;
        inner.set_total_segments(n);
        inner
    }
}

} // verus!
