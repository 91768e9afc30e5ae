//! Reading configuration values from text tokens, and naming them back.
use vstd::prelude::*;

use crate::constructs::{BoxAlign, BoxPad, BoxType};
use crate::text::chars_of;

verus! {

/// Whether every character of `s` is an ASCII decimal digit.
pub open spec fn all_digits(s: Seq<char>) -> bool {
    forall|i: int| 0 <= i < s.len() ==> '0' <= #[trigger] s[i] <= '9'
}

/// The number that the decimal digits `s` write.
pub open spec fn digits_value(s: Seq<char>) -> int
    decreases s.len(),
{
    if s.len() == 0 {
        0
    } else {
        10 * digits_value(s.drop_last()) + (s.last() as int - '0' as int)
    }
}

/// The number that `s` writes in decimal, with an optional leading `+`; `None`
/// when `s` is anything else.
pub open spec fn decimal_of(s: Seq<char>) -> Option<int> {
    let body = if s.len() > 0 && s[0] == '+' {
        s.drop_first()
    } else {
        s
    };
    if body.len() > 0 && all_digits(body) {
        Some(digits_value(body))
    } else {
        None
    }
}

/// Reads an unsigned decimal number: `None` when `s` is not one, or when it
/// does not fit a `usize`.
pub fn parse_usize(s: &str) -> (r: Option<usize>)
    ensures
        r is Some <==> (decimal_of(s@) is Some && decimal_of(s@)->0 <= usize::MAX),
        r is Some ==> r->0 == decimal_of(s@)->0,
{
    let c = chars_of(s);
    let n = c.len();
    let start: usize = if n > 0 && c[0] == '+' {
        1
    } else {
        0
    };
    let ghost body = c@.subrange(start as int, n as int);
    assert(body =~= (if c@.len() > 0 && c@[0] == '+' { c@.drop_first() } else { c@ }));
    if start == n {
        return None;
    }
    let mut acc: usize = 0;
    let mut overflow = false;
    let mut k: usize = start;
    while k < n
        invariant
            start <= k <= n == c@.len(),
            body == c@.subrange(start as int, n as int),
            c@ == s@,
            body == (if c@.len() > 0 && c@[0] == '+' { c@.drop_first() } else { c@ }),
            all_digits(body.take(k - start)),
            !overflow ==> acc == digits_value(body.take(k - start)),
            overflow ==> digits_value(body.take(k - start)) > usize::MAX,
        decreases n - k,
    {
        let ch = c[k];
        if !('0' <= ch && ch <= '9') {
            assert(body[k - start] == ch);
            assert(!('0' <= body[k - start] <= '9'));
            assert(!all_digits(body));
            assert(decimal_of(s@) is None);
            return None;
        }
        let d = (ch as u32 - '0' as u32) as usize;
        let ghost prev = body.take(k - start);
        assert(body.take(k + 1 - start).drop_last() == prev);
        assert(body.take(k + 1 - start) =~= prev.push(ch));
        if !overflow {
            match acc.checked_mul(10) {
                Some(m) => match m.checked_add(d) {
                    Some(v) => {
                        acc = v;
                    },
                    None => {
                        overflow = true;
                    },
                },
                None => {
                    overflow = true;
                },
            }
        }
        k = k + 1;
    }
    assert(body.take(n - start) == body);
    if overflow {
        None
    } else {
        Some(acc)
    }
}

/// Whether `s` holds exactly the characters of `word`.
fn is_word(s: &String, word: &str) -> (r: bool)
    ensures
        r == (s@ == word@),
{
    let w = String::from_str(word);
    *s == w
}

/// Returns the colour code unchanged.
pub fn resolve_col(dat: String) -> (r: String)
    ensures
        r@ == dat@,
{
    dat
}

/// The padding that a token gives: its number on all four sides, or none
/// when the token is not a number that fits a `usize`.
pub open spec fn pad_of(s: Seq<char>) -> usize {
    match decimal_of(s) {
        Some(v) => if v <= usize::MAX {
            v as usize
        } else {
            0
        },
        None => 0,
    }
}

/// Uniform padding from a token: its number, or zero when it is not a number.
pub fn resolve_pad(dat: String) -> (r: BoxPad)
    ensures
        r == (BoxPad { top: pad_of(dat@), down: pad_of(dat@), left: pad_of(dat@), right: pad_of(dat@) }),
{
    let p = match parse_usize(dat.as_str()) {
        Some(v) => v,
        None => 0,
    };
    BoxPad::uniform(p)
}

/// The alignment that a token names: `center`, `right`, and `left` for any other token.
pub open spec fn align_named(s: Seq<char>) -> BoxAlign {
    if s == "center"@ {
        BoxAlign::Center
    } else if s == "right"@ {
        BoxAlign::Right
    } else {
        BoxAlign::Left
    }
}

/// The alignment that a token names.
pub fn resolve_align(dat: String) -> (r: BoxAlign)
    ensures
        r == align_named(dat@),
{
    if is_word(&dat, "center") {
        BoxAlign::Center
    } else if is_word(&dat, "right") {
        BoxAlign::Right
    } else {
        BoxAlign::Left
    }
}

/// The border style that a token names, by its full or its short name;
/// `Single` for any other token.
pub open spec fn type_named(s: Seq<char>) -> BoxType {
    if s == "classic"@ || s == "c"@ {
        BoxType::Classic
    } else if s == "single"@ || s == "s"@ {
        BoxType::Single
    } else if s == "double_horizontal"@ || s == "dh"@ {
        BoxType::DoubleHorizontal
    } else if s == "double_vertical"@ || s == "dv"@ {
        BoxType::DoubleVertical
    } else if s == "double"@ || s == "d"@ {
        BoxType::Double
    } else if s == "bold"@ || s == "b"@ {
        BoxType::Bold
    } else if s == "rounded"@ || s == "r"@ {
        BoxType::Rounded
    } else if s == "bold_corners"@ || s == "bc"@ {
        BoxType::BoldCorners
    } else if s == "empty"@ || s == "e"@ {
        BoxType::Empty
    } else {
        BoxType::Single
    }
}

/// The border style that a token names.
pub fn resolve_type(dat: String) -> (r: BoxType)
    ensures
        r == type_named(dat@),
{
    if is_word(&dat, "classic") || is_word(&dat, "c") {
        BoxType::Classic
    } else if is_word(&dat, "single") || is_word(&dat, "s") {
        BoxType::Single
    } else if is_word(&dat, "double_horizontal") || is_word(&dat, "dh") {
        BoxType::DoubleHorizontal
    } else if is_word(&dat, "double_vertical") || is_word(&dat, "dv") {
        BoxType::DoubleVertical
    } else if is_word(&dat, "double") || is_word(&dat, "d") {
        BoxType::Double
    } else if is_word(&dat, "bold") || is_word(&dat, "b") {
        BoxType::Bold
    } else if is_word(&dat, "rounded") || is_word(&dat, "r") {
        BoxType::Rounded
    } else if is_word(&dat, "bold_corners") || is_word(&dat, "bc") {
        BoxType::BoldCorners
    } else if is_word(&dat, "empty") || is_word(&dat, "e") {
        BoxType::Empty
    } else {
        BoxType::Single
    }
}

/// A segment count from a token, which must be a decimal number that fits a `usize`.
pub fn resolve_segments(dat: String) -> (r: usize)
    requires
        decimal_of(dat@) is Some,
        decimal_of(dat@)->0 <= usize::MAX,
    ensures
        r == decimal_of(dat@)->0,
{
    match parse_usize(dat.as_str()) {
        Some(v) => v,
        None => 0,
    }
}

/// The name of a border style.
pub open spec fn style_name(t: BoxType) -> Seq<char> {
    match t {
        BoxType::Classic => "classic"@,
        BoxType::Single => "single"@,
        BoxType::DoubleHorizontal => "double_horizontal"@,
        BoxType::DoubleVertical => "double_vertical"@,
        BoxType::Double => "double"@,
        BoxType::Bold => "bold"@,
        BoxType::Rounded => "rounded"@,
        BoxType::BoldCorners => "bold_corners"@,
        BoxType::Empty => "empty"@,
    }
}

/// The name of an alignment.
pub open spec fn align_name(a: BoxAlign) -> Seq<char> {
    match a {
        BoxAlign::Left => "left"@,
        BoxAlign::Center => "center"@,
        BoxAlign::Right => "right"@,
    }
}

impl BoxType {
    /// The style's name, which `resolve_type` reads back.
    pub fn name(&self) -> (r: String)
        ensures
            r@ == style_name(*self),
    {
        let s = match self {
            BoxType::Classic => "classic",
            BoxType::Single => "single",
            BoxType::DoubleHorizontal => "double_horizontal",
            BoxType::DoubleVertical => "double_vertical",
            BoxType::Double => "double",
            BoxType::Bold => "bold",
            BoxType::Rounded => "rounded",
            BoxType::BoldCorners => "bold_corners",
            BoxType::Empty => "empty",
        };
        String::from_str(s)
    }
}

impl BoxAlign {
    /// The alignment's name, which `resolve_align` reads back.
    pub fn name(&self) -> (r: String)
        ensures
            r@ == align_name(*self),
    {
        let s = match self {
            BoxAlign::Left => "left",
            BoxAlign::Center => "center",
            BoxAlign::Right => "right",
        };
        String::from_str(s)
    }
}

} // verus!
