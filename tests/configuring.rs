use boxy_cli::{
    color_from_parsed, map_box_type, parse_usize, resolve_align, resolve_col, resolve_color,
    resolve_pad, resolve_segments, resolve_type, BoxAlign, BoxColor, BoxPad, BoxType, Boxy,
    BoxyBuilder,
};

#[test]
fn padding_constructors() {
    assert_eq!(BoxPad::new(), BoxPad { top: 0, down: 0, left: 0, right: 0 });
    assert_eq!(BoxPad::from_tldr(1, 2, 3, 4), BoxPad { top: 1, down: 3, left: 2, right: 4 });
    assert_eq!(BoxPad::uniform(5), BoxPad { top: 5, down: 5, left: 5, right: 5 });
    assert_eq!(BoxPad::vh(1, 2), BoxPad { top: 1, down: 1, left: 2, right: 2 });
    assert_eq!(BoxPad::from_tldr(1, 2, 3, 4).lr(), 6);
    assert_eq!(BoxPad::default(), BoxPad::new());
}

#[test]
fn colours_from_hex_codes() {
    assert_eq!(resolve_color("#00ffff"), BoxColor::TrueColor { r: 0, g: 255, b: 255 });
    assert_eq!(resolve_color("#ffff"), BoxColor::TrueColor { r: 255, g: 255, b: 255 });
    assert_eq!(resolve_color("#1aF"), BoxColor::TrueColor { r: 0x11, g: 0xaa, b: 0xff });
    assert_eq!(resolve_color("#12345678"), BoxColor::TrueColor { r: 0x12, g: 0x34, b: 0x56 });
    assert_eq!(resolve_color("00ffff"), BoxColor::White);
    assert_eq!(resolve_color("#00ff"), BoxColor::TrueColor { r: 0, g: 0, b: 0xff });
    assert_eq!(resolve_color("#0g0"), BoxColor::White);
    assert_eq!(resolve_color(""), BoxColor::White);
    assert_eq!(resolve_color("#+f+f+f"), BoxColor::TrueColor { r: 15, g: 15, b: 15 });
    assert_eq!(resolve_color("#+f+f+"), BoxColor::White);
    assert_eq!(resolve_color("#fff+"), BoxColor::White);
    assert_eq!(resolve_color("#00ffffzz"), BoxColor::White);
    assert_eq!(color_from_parsed(None), BoxColor::White);
    assert_eq!(color_from_parsed(Some((1, 2, 3))), BoxColor::TrueColor { r: 1, g: 2, b: 3 });
}

#[test]
fn glyphs_of_styles() {
    let s = map_box_type(BoxType::Single);
    assert_eq!((s.top_left, s.horizontal, s.vertical, s.cross), ('┌', '─', '│', '┼'));
    let c = map_box_type(BoxType::Classic);
    assert_eq!((c.top_left, c.horizontal, c.vertical), ('+', '-', '┇'));
    let e = map_box_type(BoxType::Empty);
    assert_eq!((e.top_left, e.vertical, e.lower_t), (' ', ' ', ' '));
    let d = map_box_type(BoxType::Double);
    assert_eq!((d.left_t, d.right_t, d.upper_t), ('╠', '╣', '╦'));
}

#[test]
fn tokens_resolve() {
    assert_eq!(resolve_col("#123456".to_string()), "#123456");
    assert_eq!(resolve_pad("3".to_string()), BoxPad::uniform(3));
    assert_eq!(resolve_pad("x".to_string()), BoxPad::uniform(0));
    assert_eq!(resolve_pad("+7".to_string()), BoxPad::uniform(7));
    assert_eq!(resolve_align("center".to_string()), BoxAlign::Center);
    assert_eq!(resolve_align("right".to_string()), BoxAlign::Right);
    assert_eq!(resolve_align("left".to_string()), BoxAlign::Left);
    assert_eq!(resolve_align("middle".to_string()), BoxAlign::Left);
    assert_eq!(resolve_type("double".to_string()), BoxType::Double);
    assert_eq!(resolve_type("dh".to_string()), BoxType::DoubleHorizontal);
    assert_eq!(resolve_type("bold_corners".to_string()), BoxType::BoldCorners);
    assert_eq!(resolve_type("e".to_string()), BoxType::Empty);
    assert_eq!(resolve_type("whatever".to_string()), BoxType::Single);
    assert_eq!(resolve_segments("12".to_string()), 12);
}

#[test]
fn names_read_back() {
    for t in [
        BoxType::Classic,
        BoxType::Single,
        BoxType::DoubleHorizontal,
        BoxType::DoubleVertical,
        BoxType::Double,
        BoxType::Bold,
        BoxType::Rounded,
        BoxType::BoldCorners,
        BoxType::Empty,
    ] {
        assert_eq!(resolve_type(t.name()), t);
    }
    for a in [BoxAlign::Left, BoxAlign::Center, BoxAlign::Right] {
        assert_eq!(resolve_align(a.name()), a);
    }
    assert_eq!(BoxType::DoubleVertical.name(), "double_vertical");
    assert_eq!(BoxAlign::Center.name(), "center");
}

#[test]
fn decimal_parsing() {
    assert_eq!(parse_usize("0"), Some(0));
    assert_eq!(parse_usize("42"), Some(42));
    assert_eq!(parse_usize("+42"), Some(42));
    assert_eq!(parse_usize(""), None);
    assert_eq!(parse_usize("+"), None);
    assert_eq!(parse_usize("-1"), None);
    assert_eq!(parse_usize("4 2"), None);
    assert_eq!(parse_usize("18446744073709551615"), Some(usize::MAX));
    assert_eq!(parse_usize("18446744073709551616"), None);
    assert_eq!(parse_usize("99999999999999999999x"), None);
}

#[test]
fn builder_matches_setters() {
    let built = Boxy::builder()
        .box_type(BoxType::Double)
        .color("#00ffff")
        .padding(BoxPad::uniform(1), BoxPad::vh(0, 1))
        .align(BoxAlign::Left)
        .add_segment("Hello, Boxy!", "#ffffff", BoxAlign::Center)
        .add_line("This is a new line.", "#32CD32")
        .add_segment("Another section", "#663399", BoxAlign::Left)
        .width(30)
        .height(5)
        .segment_ratios(1, vec![1, 2])
        .set_terminal_width_offset(-4)
        .build();
    let mut direct = Boxy::new(BoxType::Double, "#00ffff");
    direct.set_padding(BoxPad::uniform(1), BoxPad::vh(0, 1));
    direct.add_text_sgmt("Hello, Boxy!", "#ffffff", BoxAlign::Center);
    direct.add_text_line_indx("This is a new line.", "#32CD32", 0);
    direct.add_text_sgmt("Another section", "#663399", BoxAlign::Left);
    direct.set_width(30);
    direct.set_height(5);
    direct.set_segment_ratios(1, vec![1, 2]);
    direct.set_total_segments(2);
    assert_eq!(built.render_plain(80), direct.render_plain(80));
    let r = built.render_plain(80).unwrap();
    assert_eq!(r.len(), 7);
    assert_eq!(r[0], " ╔════════════════════════════╗");
}

#[test]
fn builder_line_without_segment_starts_one() {
    let b = BoxyBuilder::new().add_line("first", "#ffffff").width(9).build();
    assert_eq!(b.render_plain(80).unwrap(), vec!["┌───────┐", "│first  │", "└───────┘"]);
    let mut d = Boxy::default();
    d.add_line("first", "#ffffff");
    d.add_line("second", "#ffffff");
    d.set_width(10);
    assert_eq!(
        d.render_plain(80).unwrap(),
        vec!["┌────────┐", "│first   │", "│        │", "│second  │", "└────────┘"]
    );
}

#[test]
fn setters_change_rendering() {
    let mut b = Boxy::new(BoxType::Single, "#ffffff");
    b.add_text_sgmt("ab", "#ffffff", BoxAlign::Left);
    b.set_width(6);
    b.set_type(BoxType::Bold);
    b.set_color("#ff0000");
    assert_eq!(b.render_plain(80).unwrap()[0], "┏━━━━┓");
    let spans = b.render(80).unwrap();
    assert_eq!(spans[0][1].color, Some(BoxColor::TrueColor { r: 255, g: 0, b: 0 }));
}
