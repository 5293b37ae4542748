use tronk::display::{card_label, tags_line, LABEL_BYTES};
use tronk::navigation::ends_row;

#[test]
fn short_names_are_shown_in_full() {
    assert_eq!(card_label(""), Some(String::new()));
    assert_eq!(card_label("Foo"), Some("Foo".to_string()));
    assert_eq!(card_label("0123456789"), Some("0123456789".to_string()));
    assert_eq!(card_label("\u{e9}\u{e9}\u{e9}\u{e9}\u{e9}"), Some("\u{e9}\u{e9}\u{e9}\u{e9}\u{e9}".to_string()));
}

#[test]
fn long_names_are_cut_after_ten_bytes() {
    assert_eq!(LABEL_BYTES, 10);
    assert_eq!(card_label("0123456789a"), Some("0123456789...".to_string()));
    assert_eq!(card_label("a long name for a card"), Some("a long nam...".to_string()));
    assert_eq!(
        card_label("\u{e9}\u{e9}\u{e9}\u{e9}\u{e9}x"),
        Some("\u{e9}\u{e9}\u{e9}\u{e9}\u{e9}...".to_string())
    );
}

#[test]
fn names_that_would_be_cut_inside_a_character_have_no_label() {
    assert_eq!(card_label("012345678\u{e9}"), None);
    assert_eq!(card_label("01234567\u{20ac}"), None);
    assert_eq!(card_label("0123456\u{20ac}x"), Some("0123456\u{20ac}...".to_string()));
    for name in ["012345678\u{e9}", "01234567\u{20ac}", "0123456\u{20ac}x", "short", "exactly 10"] {
        assert_eq!(
            card_label(name).is_some(),
            name.len() <= 10 || name.is_char_boundary(10),
            "{name:?}"
        );
    }
}

#[test]
fn label_is_what_truncating_gives() {
    for name in ["", "a", "0123456789", "0123456789a", "a long name for a card", "0123456\u{20ac}xyz"] {
        let mut expected = name.to_string();
        if expected.len() > 10 {
            expected.truncate(10);
            expected.push_str("...");
        }
        assert_eq!(card_label(name), Some(expected));
    }
}

#[test]
fn tags_are_written_behind_hashes_with_blanks_between() {
    assert_eq!(tags_line(&vec![]), "");
    assert_eq!(tags_line(&vec!["a".to_string()]), "#a");
    assert_eq!(tags_line(&vec!["a".to_string(), "b c".to_string(), "".to_string()]), "#a #b c #");
    let tags = vec!["x".to_string(), "y".to_string(), "x".to_string()];
    let expected = tags.iter().map(|tag| format!("#{}", tag)).collect::<Vec<_>>().join(" ");
    assert_eq!(tags_line(&tags), expected);
}

#[test]
fn rows_end_at_multiples_of_the_column_count() {
    assert!(ends_row(3, 3));
    assert!(ends_row(6, 3));
    assert!(!ends_row(1, 3));
    assert!(!ends_row(4, 3));
    assert!(ends_row(1, 1));
    assert!(ends_row(0, 5));
    assert!(!ends_row(usize::MAX, 2));
}
