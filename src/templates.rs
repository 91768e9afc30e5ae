//! The border glyphs of each border style.
use vstd::prelude::*;

use crate::constructs::BoxType;

verus! {

/// The eleven characters that draw a border.
#[derive(Debug, Clone, Copy, PartialEq, Eq, Structural)]
pub struct BoxTemplates {
    pub top_left: char,
    pub top_right: char,
    pub bottom_left: char,
    pub bottom_right: char,
    pub vertical: char,
    pub horizontal: char,
    pub left_t: char,
    pub right_t: char,
    pub upper_t: char,
    pub lower_t: char,
    pub cross: char,
}

/// The glyphs of border style `t`.
pub open spec fn glyphs_of(t: BoxType) -> BoxTemplates {
    match t {
        BoxType::Classic => BoxTemplates {
            top_left: '+',
            top_right: '+',
            bottom_left: '+',
            bottom_right: '+',
            vertical: '┇',
            horizontal: '-',
            left_t: '+',
            right_t: '+',
            upper_t: '+',
            lower_t: '+',
            cross: '+',
        },
        BoxType::Single => BoxTemplates {
            top_left: '┌',
            top_right: '┐',
            bottom_left: '└',
            bottom_right: '┘',
            vertical: '│',
            horizontal: '─',
            left_t: '├',
            right_t: '┤',
            upper_t: '┬',
            lower_t: '┴',
            cross: '┼',
        },
        BoxType::DoubleHorizontal => BoxTemplates {
            top_left: '╒',
            top_right: '╕',
            bottom_left: '╘',
            bottom_right: '╛',
            vertical: '│',
            horizontal: '═',
            left_t: '╞',
            right_t: '╡',
            upper_t: '╤',
            lower_t: '╧',
            cross: '╪',
        },
        BoxType::DoubleVertical => BoxTemplates {
            top_left: '╓',
            top_right: '╖',
            bottom_left: '╙',
            bottom_right: '╜',
            vertical: '║',
            horizontal: '─',
            left_t: '╟',
            right_t: '╢',
            upper_t: '╥',
            lower_t: '╨',
            cross: '╫',
        },
        BoxType::Double => BoxTemplates {
            top_left: '╔',
            top_right: '╗',
            bottom_left: '╚',
            bottom_right: '╝',
            vertical: '║',
            horizontal: '═',
            left_t: '╠',
            right_t: '╣',
            upper_t: '╦',
            lower_t: '╩',
            cross: '╬',
        },
        BoxType::Bold => BoxTemplates {
            top_left: '┏',
            top_right: '┓',
            bottom_left: '┗',
            bottom_right: '┛',
            vertical: '┃',
            horizontal: '━',
            left_t: '┣',
            right_t: '┫',
            upper_t: '┳',
            lower_t: '┻',
            cross: '╋',
        },
        BoxType::Rounded => BoxTemplates {
            top_left: '╭',
            top_right: '╮',
            bottom_left: '╰',
            bottom_right: '╯',
            vertical: '│',
            horizontal: '─',
            left_t: '├',
            right_t: '┤',
            upper_t: '┬',
            lower_t: '┴',
            cross: '┼',
        },
        BoxType::BoldCorners => BoxTemplates {
            top_left: '┏',
            top_right: '┓',
            bottom_left: '┗',
            bottom_right: '┛',
            vertical: '│',
            horizontal: '─',
            left_t: '├',
            right_t: '┤',
            upper_t: '┬',
            lower_t: '┴',
            cross: '┼',
        },
        BoxType::Empty => BoxTemplates {
            top_left: ' ',
            top_right: ' ',
            bottom_left: ' ',
            bottom_right: ' ',
            vertical: ' ',
            horizontal: ' ',
            left_t: ' ',
            right_t: ' ',
            upper_t: ' ',
            lower_t: ' ',
            cross: ' ',
        },
    }
}

/// The glyphs of border style `box_type`.
pub fn map_box_type(box_type: BoxType) -> (r: BoxTemplates)
    ensures
        r == glyphs_of(box_type),
{
    match box_type {
        BoxType::Classic => BoxTemplates {
            top_left: '+',
            top_right: '+',
            bottom_left: '+',
            bottom_right: '+',
            vertical: '┇',
            horizontal: '-',
            left_t: '+',
            right_t: '+',
            upper_t: '+',
            lower_t: '+',
            cross: '+',
        },
        BoxType::Single => BoxTemplates {
            top_left: '┌',
            top_right: '┐',
            bottom_left: '└',
            bottom_right: '┘',
            vertical: '│',
            horizontal: '─',
            left_t: '├',
            right_t: '┤',
            upper_t: '┬',
            lower_t: '┴',
            cross: '┼',
        },
        BoxType::DoubleHorizontal => BoxTemplates {
            top_left: '╒',
            top_right: '╕',
            bottom_left: '╘',
            bottom_right: '╛',
            vertical: '│',
            horizontal: '═',
            left_t: '╞',
            right_t: '╡',
            upper_t: '╤',
            lower_t: '╧',
            cross: '╪',
        },
        BoxType::DoubleVertical => BoxTemplates {
            top_left: '╓',
            top_right: '╖',
            bottom_left: '╙',
            bottom_right: '╜',
            vertical: '║',
            horizontal: '─',
            left_t: '╟',
            right_t: '╢',
            upper_t: '╥',
            lower_t: '╨',
            cross: '╫',
        },
        BoxType::Double => BoxTemplates {
            top_left: '╔',
            top_right: '╗',
            bottom_left: '╚',
            bottom_right: '╝',
            vertical: '║',
            horizontal: '═',
            left_t: '╠',
            right_t: '╣',
            upper_t: '╦',
            lower_t: '╩',
            cross: '╬',
        },
        BoxType::Bold => BoxTemplates {
            top_left: '┏',
            top_right: '┓',
            bottom_left: '┗',
            bottom_right: '┛',
            vertical: '┃',
            horizontal: '━',
            left_t: '┣',
            right_t: '┫',
            upper_t: '┳',
            lower_t: '┻',
            cross: '╋',
        },
        BoxType::Rounded => BoxTemplates {
            top_left: '╭',
            top_right: '╮',
            bottom_left: '╰',
            bottom_right: '╯',
            vertical: '│',
            horizontal: '─',
            left_t: '├',
            right_t: '┤',
            upper_t: '┬',
            lower_t: '┴',
            cross: '┼',
        },
        BoxType::BoldCorners => BoxTemplates {
            top_left: '┏',
            top_right: '┓',
            bottom_left: '┗',
            bottom_right: '┛',
            vertical: '│',
            horizontal: '─',
            left_t: '├',
            right_t: '┤',
            upper_t: '┬',
            lower_t: '┴',
            cross: '┼',
        },
        BoxType::Empty => BoxTemplates {
            top_left: ' ',
            top_right: ' ',
            bottom_left: ' ',
            bottom_right: ' ',
            vertical: ' ',
            horizontal: ' ',
            left_t: ' ',
            right_t: ' ',
            upper_t: ' ',
            lower_t: ' ',
            cross: ' ',
        },
    }
}

} // verus!
