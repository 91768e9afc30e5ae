use boxy_cli::{
    align_offset, align_padding, paint_line, plain_line, render_line, BoxAlign, BoxColor,
    BoxError, BoxPad, BoxType, Boxy,
};

fn rows(b: &Boxy, term: usize) -> Vec<String> {
    b.render_plain(term).unwrap()
}

fn width_of(s: &str) -> usize {
    s.chars().count()
}

#[test]
fn single_segment_fixed_width() {
    let mut b = Boxy::new(BoxType::Single, "#ffffff");
    b.add_text_sgmt("Hi", "#ffffff", BoxAlign::Left);
    b.set_width(12);
    assert_eq!(rows(&b, 80), vec!["┌──────────┐", "│Hi        │", "└──────────┘"]);
}

#[test]
fn divider_only_between_segments() {
    let mut b = Boxy::new(BoxType::Single, "#ffffff");
    b.add_text_sgmt("A", "#ffffff", BoxAlign::Left);
    b.add_text_sgmt("B", "#ffffff", BoxAlign::Left);
    b.set_width(7);
    let r = rows(&b, 80);
    assert_eq!(r, vec!["┌─────┐", "│A    │", "├─────┤", "│B    │", "└─────┘"]);
    assert_eq!(r.iter().filter(|l| l.starts_with('├')).count(), 1);
}

#[test]
fn blank_row_between_lines_of_a_segment() {
    let mut b = Boxy::new(BoxType::Double, "#00ffff");
    b.add_text_sgmt("one", "#ffffff", BoxAlign::Center);
    b.add_text_line("two", "#32CD32");
    b.set_width(9);
    assert_eq!(
        rows(&b, 80),
        vec!["╔═══════╗", "║  one  ║", "║       ║", "║  two  ║", "╚═══════╝"]
    );
}

#[test]
fn bad_colour_falls_back_to_white() {
    let mut b = Boxy::new(BoxType::Rounded, "not a colour");
    b.add_text_sgmt("text", "#zzzzzz", BoxAlign::Left);
    b.set_width(8);
    let spans = b.render(80).unwrap();
    assert_eq!(spans.len(), 3);
    assert_eq!(spans[1][3].text, "text");
    assert_eq!(spans[1][3].color, Some(BoxColor::White));
    assert_eq!(spans[0][1].color, Some(BoxColor::White));
    assert_eq!(rows(&b, 80), vec!["╭──────╮", "│text  │", "╰──────╯"]);
}

#[test]
fn good_colour_is_used() {
    let mut b = Boxy::new(BoxType::Bold, "#00ffff");
    b.add_text_sgmt("x", "#32CD32", BoxAlign::Left);
    b.set_width(5);
    let spans = b.render(80).unwrap();
    assert_eq!(spans[0][1].color, Some(BoxColor::TrueColor { r: 0, g: 255, b: 255 }));
    assert_eq!(spans[1][3].color, Some(BoxColor::TrueColor { r: 0x32, g: 0xcd, b: 0x32 }));
}

#[test]
fn right_alignment_keeps_inner_right_padding() {
    let mut b = Boxy::new(BoxType::Single, "#ffffff");
    b.add_text_sgmt("abc", "#ffffff", BoxAlign::Right);
    b.set_int_padding(BoxPad::from_tldr(0, 3, 0, 2));
    b.set_width(14);
    let r = rows(&b, 80);
    assert_eq!(r[1], "│       abc  │");
    let chars: Vec<char> = r[1].chars().collect();
    let n = chars.len();
    assert_eq!(chars[n - 1], '│');
    assert_eq!(chars[n - 2], ' ');
    assert_eq!(chars[n - 3], ' ');
    assert_eq!(chars[n - 4], 'c');
}

#[test]
fn centre_alignment_puts_odd_space_right() {
    assert_eq!(align_padding(7, 2, BoxAlign::Center), (2, 3));
    assert_eq!(align_padding(7, 3, BoxAlign::Center), (2, 2));
    assert_eq!(align_padding(7, 3, BoxAlign::Left), (0, 4));
    assert_eq!(align_padding(7, 3, BoxAlign::Right), (4, 0));
    let row = render_line(
        "ab",
        BoxColor::White,
        BoxAlign::Center,
        0,
        '|',
        BoxColor::White,
        BoxPad::new(),
        7,
    );
    assert_eq!(plain_line(&row), "|  ab   |");
}

#[test]
fn all_rows_have_the_same_width() {
    let mut b = Boxy::new(BoxType::DoubleVertical, "#ffffff");
    b.add_text_sgmt(
        "Lorem ipsum dolor sit amet, consectetur adipiscing elit, sed do eiusmod tempor",
        "#ffffff",
        BoxAlign::Center,
    );
    b.add_text_line("second line", "#ffff");
    b.add_text_sgmt("Sed ut perspiciatis unde omnis", "#ffff", BoxAlign::Right);
    b.add_text_sgmt("Hello Theree", "#00ffff", BoxAlign::Left);
    b.set_padding(BoxPad::from_tldr(1, 2, 3, 4), BoxPad::uniform(2));
    b.set_align(BoxAlign::Center);
    let r = rows(&b, 40);
    assert!(r.len() > 8);
    let w = width_of(&r[0]);
    for line in &r {
        assert_eq!(width_of(line), w);
    }
}

#[test]
fn rendering_twice_is_identical() {
    let mut b = Boxy::new(BoxType::Classic, "#ff0000");
    b.add_text_sgmt("same text every time, wrapped", "#00ff00", BoxAlign::Center);
    b.add_text_sgmt("second", "#0000ff", BoxAlign::Right);
    let first = rows(&b, 30);
    let second = rows(&b, 30);
    assert_eq!(first, second);
}

#[test]
fn dynamic_width_follows_terminal() {
    let mut b = Boxy::new(BoxType::Single, "#ffffff");
    b.add_text_sgmt("hello", "#ffffff", BoxAlign::Left);
    b.set_ext_padding(BoxPad::from_tldr(0, 2, 0, 3));
    let r = rows(&b, 20);
    assert_eq!(r[0], "  ┌─────────────┐");
    assert_eq!(r[1], "  │hello        │");
}

#[test]
fn box_alignment_in_terminal() {
    let mut b = Boxy::new(BoxType::Single, "#ffffff");
    b.add_text_sgmt("x", "#ffffff", BoxAlign::Left);
    b.set_width(12);
    b.set_align(BoxAlign::Center);
    assert_eq!(rows(&b, 20)[0], "    ┌──────────┐");
    b.set_align(BoxAlign::Right);
    b.set_ext_padding(BoxPad::from_tldr(0, 0, 0, 1));
    assert_eq!(rows(&b, 20)[0], "       ┌──────────┐");
}

#[test]
fn align_offset_values() {
    let pad = BoxPad::from_tldr(0, 2, 0, 1);
    assert_eq!(align_offset(10, 20, BoxAlign::Left, pad), 0);
    assert_eq!(align_offset(10, 20, BoxAlign::Center, pad), 2);
    assert_eq!(align_offset(10, 20, BoxAlign::Right, pad), 5);
    assert_eq!(align_offset(30, 20, BoxAlign::Right, pad), 0);
}

#[test]
fn too_narrow_is_invalid_width() {
    let mut b = Boxy::new(BoxType::Single, "#ffffff");
    b.add_text_sgmt("x", "#ffffff", BoxAlign::Left);
    b.set_width(2);
    assert_eq!(b.render(80), Err(BoxError::InvalidWidth));
    b.set_width(6);
    b.set_int_padding(BoxPad::uniform(2));
    assert_eq!(b.render(80), Err(BoxError::InvalidWidth));
    b.set_int_padding(BoxPad::vh(0, 1));
    assert!(b.render(80).is_ok());
    b.set_width(0);
    b.set_ext_padding(BoxPad::uniform(5));
    assert_eq!(b.render_plain(12), Err(BoxError::InvalidWidth));
    assert!(b.render_plain(15).is_ok());
}

#[test]
fn empty_box_has_only_borders() {
    let mut b = Boxy::new(BoxType::DoubleHorizontal, "#ffffff");
    b.set_width(4);
    assert_eq!(rows(&b, 80), vec!["╒══╕", "╘══╛"]);
}

#[test]
fn wrapped_text_in_box() {
    let mut b = Boxy::new(BoxType::Single, "#ffffff");
    b.add_text_sgmt("Hello there friend", "#ffffff", BoxAlign::Left);
    b.set_width(17);
    assert_eq!(
        rows(&b, 80),
        vec![
            "┌───────────────┐",
            "│Hello there    │",
            "│friend         │",
            "└───────────────┘"
        ]
    );
}

#[test]
fn painted_row_holds_colour_codes() {
    colored::control::set_override(true);
    let mut b = Boxy::new(BoxType::Single, "#00ffff");
    b.add_text_sgmt("Hi", "#ffffff", BoxAlign::Left);
    b.set_width(6);
    let spans = b.render(80).unwrap();
    let painted = paint_line(&spans[1]);
    assert!(painted.contains("\x1b["));
    assert!(painted.contains("Hi"));
    assert_ne!(painted, plain_line(&spans[1]));
    colored::control::unset_override();
}

#[test]
fn centring_keeps_the_outer_right_padding() {
    let pad = BoxPad::from_tldr(0, 0, 0, 8);
    assert_eq!(align_offset(10, 20, BoxAlign::Center, pad), 0);
    assert_eq!(align_offset(10, 20, BoxAlign::Right, pad), 0);
    let pad = BoxPad::from_tldr(0, 1, 0, 3);
    assert_eq!(align_offset(10, 24, BoxAlign::Left, pad), 0);
    assert_eq!(align_offset(10, 24, BoxAlign::Center, pad), 4);
    assert_eq!(align_offset(10, 24, BoxAlign::Right, pad), 8);
}

#[test]
fn unreadable_colours_change_no_character() {
    let build = |border: &str, text: &str| {
        let mut b = Boxy::new(BoxType::Single, border);
        b.add_text_sgmt("some words to wrap here", text, BoxAlign::Center);
        b.add_text_sgmt("second", text, BoxAlign::Right);
        b.set_width(14);
        b
    };
    let bad = build("zzz", "#12");
    let good = build("#ffffff", "#ffffff");
    assert_eq!(bad.render_plain(40), good.render_plain(40));
    let spans = bad.render(40).unwrap();
    for row in &spans {
        for span in row {
            if let Some(c) = span.color {
                assert_eq!(c, BoxColor::White);
            }
        }
    }
}

