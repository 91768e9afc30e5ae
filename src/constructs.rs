//! Border styles, alignment and padding.
use vstd::prelude::*;

verus! {

/// Border style of a box.
#[derive(Debug, Clone, Copy, PartialEq, Eq, Structural)]
pub enum BoxType {
    Classic,
    Single,
    DoubleHorizontal,
    DoubleVertical,
    Double,
    Bold,
    Rounded,
    BoldCorners,
    Empty,
}

/// Horizontal alignment, of text inside a segment or of the box in the terminal.
#[derive(Debug, Clone, Copy, PartialEq, Eq, Structural)]
pub enum BoxAlign {
    Left,
    Center,
    Right,
}

/// Why a box cannot be laid out.
#[derive(Debug, Clone, Copy, PartialEq, Eq, Structural)]
pub enum BoxError {
    /// The room left for the box, or for its text, after borders and padding is not positive.
    InvalidWidth,
}

/// Padding on the four sides of a box.
#[derive(Debug, Clone, Copy, PartialEq, Eq, Structural)]
pub struct BoxPad {
    pub top: usize,
    pub down: usize,
    pub left: usize,
    pub right: usize,
}

impl BoxPad {
    /// Padding on the left and right together.
    pub open spec fn spec_lr(self) -> int {
        self.left + self.right
    }

    /// No padding on any side.
    pub fn new() -> (r: BoxPad)
        ensures
            r == (BoxPad { top: 0, down: 0, left: 0, right: 0 }),
    {
        BoxPad { top: 0, down: 0, left: 0, right: 0 }
    }

    /// Padding given in the order top, left, down, right.
    pub fn from_tldr(top: usize, left: usize, down: usize, right: usize) -> (r: BoxPad)
        ensures
            r == (BoxPad { top, down, left, right }),
    {
        BoxPad { top, down, left, right }
    }

    /// The same padding on all four sides.
    pub fn uniform(pad: usize) -> (r: BoxPad)
        ensures
            r == (BoxPad { top: pad, down: pad, left: pad, right: pad }),
    {
        BoxPad { top: pad, down: pad, left: pad, right: pad }
    }

    /// `vertical` above and below, `horizontal` left and right.
    pub fn vh(vertical: usize, horizontal: usize) -> (r: BoxPad)
        ensures
            r == (BoxPad { top: vertical, down: vertical, left: horizontal, right: horizontal }),
    {
        BoxPad { top: vertical, down: vertical, left: horizontal, right: horizontal }
    }

    /// Padding on the left and right together.
    pub fn lr(&self) -> (r: usize)
        requires
            self.spec_lr() <= usize::MAX,
        ensures
            r == self.spec_lr(),
    {
        self.right + self.left
    }
}

impl Default for BoxPad {
    fn default() -> (r: BoxPad)
        ensures
            r == (BoxPad { top: 0, down: 0, left: 0, right: 0 }),
    {
        BoxPad::new()
    }
}

} // verus!
