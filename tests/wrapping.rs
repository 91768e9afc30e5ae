use boxy_cli::{nearest_whitespace, text_wrap_vec, BoxError};

fn wrap(text: &str, width: usize) -> Vec<String> {
    text_wrap_vec(text, width).unwrap()
}

#[test]
fn wrap_breaks_at_last_fitting_space() {
    assert_eq!(wrap("Hello there friend", 15), vec!["Hello there", "friend"]);
}

#[test]
fn wrap_keeps_text_that_fits() {
    assert_eq!(wrap("Hello there friend", 20), vec!["Hello there friend"]);
    assert_eq!(wrap("Hello there friend", 18), vec!["Hello there friend"]);
}

#[test]
fn wrap_hard_breaks_long_word() {
    let frags = wrap("XXXXXXXXXXXXXXXXXXXX", 5);
    assert_eq!(frags.len(), 4);
    for f in &frags {
        assert_eq!(f, "XXXXX");
    }
}

#[test]
fn wrap_hard_break_count_is_ceiling() {
    assert_eq!(wrap("abcdefghijk", 4), vec!["abcd", "efgh", "ijk"]);
}

#[test]
fn wrap_empty_text_gives_no_fragment() {
    assert!(wrap("", 5).is_empty());
    assert!(wrap("   \t  ", 5).is_empty());
}

#[test]
fn wrap_zero_width_is_rejected() {
    assert_eq!(text_wrap_vec("abc", 0), Err(BoxError::InvalidWidth));
}

#[test]
fn wrap_trims_both_ends() {
    assert_eq!(wrap("   ab cd \n ", 10), vec!["ab cd"]);
}

#[test]
fn wrap_mixes_soft_and_hard_breaks() {
    // "a" ends at a space, "bcde" is cut hard, "f" ends the text.
    let frags = wrap("a bcdef", 4);
    assert_eq!(frags, vec!["a", "bcde", "f"]);
    let joined = format!("{} {}{}", frags[0], frags[1], frags[2]);
    assert_eq!(joined, "a bcdef");
}

#[test]
fn wrap_round_trip_on_words() {
    let text = "the quick brown fox jumps over the lazy dog";
    let frags = wrap(text, 10);
    for f in &frags {
        assert!(f.chars().count() <= 10);
    }
    assert_eq!(frags.join(" "), text);
}

#[test]
fn wrap_keeps_doubled_spaces() {
    assert_eq!(wrap("a  b", 1), vec!["a", "", "b"]);
}

#[test]
fn wrap_counts_characters_not_bytes() {
    assert_eq!(wrap("ééé ééé", 3), vec!["ééé", "ééé"]);
}

#[test]
fn nearest_whitespace_finds_rightmost_space() {
    let t: Vec<char> = "ab cd ef".chars().collect();
    assert_eq!(nearest_whitespace(&t, 0, 6), Some(5));
    assert_eq!(nearest_whitespace(&t, 0, 4), Some(2));
    assert_eq!(nearest_whitespace(&t, 3, 4), None);
    // one past the end stands for the space after the text
    assert_eq!(nearest_whitespace(&t, 6, 8), Some(8));
}
