//! Bordered, word-wrapped text boxes for the terminal.
//!
//! A [`Boxy`] holds text segments, a border style and colour, padding and
//! alignment. Rendering it yields one row of coloured spans per terminal line;
//! every row of one box shows the same number of characters.
pub mod boxer;
pub mod color;
pub mod constructs;
pub mod model;
pub mod render;
pub mod resolve;
pub mod templates;
pub mod text;
pub mod wrap;

pub use boxer::{align_offset, Boxy, BoxyBuilder};
pub use color::{color_from_parsed, paint_text, resolve_color, BoxColor};
pub use constructs::{BoxAlign, BoxError, BoxPad, BoxType};
pub use model::Frame;
pub use render::{
    align_padding, blank_line, border_line, paint_line, plain_line, render_line, Span,
};
pub use resolve::{
    parse_usize, resolve_align, resolve_col, resolve_pad, resolve_segments, resolve_type,
};
pub use templates::{map_box_type, BoxTemplates};
pub use wrap::{nearest_whitespace, text_wrap_vec};
