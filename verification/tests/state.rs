use tronk::card::{Card, ID_KIND_MASK, ID_KIND_RANDOM};
use tronk::inference::{inference_arguments, inference_program, inference_reply};
use tronk::state::{Outcome, Tronk};
use tronk::text::{char_is_whitespace, find, starts_with, trim, CharClass};

#[test]
fn new_state_is_empty_with_the_input_station_open() {
    let state = Tronk::new(None);
    assert!(state.cards().is_empty());
    assert!(state.undo_stack().is_empty());
    assert_eq!(state.system_output_text(), "");
    assert_eq!(state.user_input_text(), "");
    assert!(state.is_input_station_open());
    assert_eq!(state.selected_card(), None);
    assert!(state.detailed_card().is_none());
}

#[test]
fn new_state_holds_the_loaded_cards_in_order() {
    let cards: Vec<Card> = ["a", "b", "c"]
        .iter()
        .map(|name| Card { name: name.to_string(), ..Card::default() })
        .collect();
    let state = Tronk::new(Some(cards.clone()));
    assert_eq!(state.cards(), &cards);
    assert!(state.undo_stack().is_empty());
    assert!(state.is_input_station_open());
}

#[test]
fn default_card_is_blank_with_a_random_identifier() {
    let a = Card::default();
    let b = Card::default();
    assert_eq!(a.name, "");
    assert_eq!(a.description, "");
    assert_eq!(a.url, "");
    assert!(a.tags.is_empty());
    assert!(a.folders.is_empty());
    assert_eq!(a.id & ID_KIND_MASK, ID_KIND_RANDOM);
    assert_eq!(b.id & ID_KIND_MASK, ID_KIND_RANDOM);
    assert_eq!((a.id >> 76) & 0xf, 4);
    assert_eq!((a.id >> 62) & 0x3, 2);
    assert_ne!(a.id, b.id);
    assert_ne!(a.id, 0);
}

#[test]
fn created_cards_get_their_own_identifiers() {
    let mut state = Tronk::new(None);
    state.set_user_input_text("/add one".to_string());
    let first = state.process_input();
    state.set_user_input_text("/add two".to_string());
    let second = state.process_input();
    let (Outcome::Created { id: a }, Outcome::Created { id: b }) = (first, second) else {
        panic!("two cards were to be made");
    };
    assert_ne!(a, b);
    assert_eq!(state.cards()[0].id, a);
    assert_eq!(state.cards()[1].id, b);
    assert_eq!(a & ID_KIND_MASK, ID_KIND_RANDOM);
    assert_eq!(state.undo_stack()[1][0].id, a);
}

#[test]
fn clone_keeps_every_field() {
    let card = Card {
        id: 7,
        name: "n".to_string(),
        description: "d".to_string(),
        url: "u".to_string(),
        tags: vec!["t1".to_string(), "t2".to_string()],
        folders: vec!["f".to_string()],
    };
    let copy = card.clone();
    assert_eq!(copy, card);
    assert_eq!(copy.id, 7);
    assert_eq!(copy.tags, vec!["t1".to_string(), "t2".to_string()]);
}

#[test]
fn input_buffer_can_be_set_and_is_cleared_by_entering() {
    let mut state = Tronk::new(None);
    state.set_user_input_text("typing".to_string());
    assert_eq!(state.user_input_text(), "typing");
    state.process_input();
    assert_eq!(state.user_input_text(), "");
}

#[test]
fn input_station_opens() {
    let mut state = Tronk::new(None);
    state.open_input_station();
    assert!(state.is_input_station_open());
}

#[test]
fn inference_answer_becomes_the_message() {
    let mut state = Tronk::new(None);
    state.set_user_input_text("/ollama hi".to_string());
    assert_eq!(state.process_input(), Outcome::Infer { prompt: "hi".to_string() });
    state.set_user_input_text("next".to_string());
    state.finish_inference(true, b"hello there\n", b"warning");
    assert_eq!(state.system_output_text(), "hello there\n");
    assert_eq!(state.user_input_text(), "next");
    state.finish_inference(false, b"partial", b"model not found");
    assert_eq!(state.system_output_text(), "model not found");
    assert!(state.cards().is_empty());
    assert!(state.undo_stack().is_empty());
}

#[test]
fn inference_reply_picks_the_stream_and_mends_bad_bytes() {
    assert_eq!(inference_reply(true, b"out", b"err"), "out");
    assert_eq!(inference_reply(false, b"out", b"err"), "err");
    assert_eq!(inference_reply(true, b"", b"err"), "");
    assert_eq!(inference_reply(true, "gr\u{fc}n".as_bytes(), b""), "gr\u{fc}n");
    assert_eq!(inference_reply(true, b"a\xffb", b""), "a\u{fffd}b");
    assert_eq!(inference_reply(false, b"", b"\xc3"), "\u{fffd}");
}

#[test]
fn inference_is_called_with_subcommand_model_and_prompt() {
    assert_eq!(inference_program(), "ollama");
    assert_eq!(
        inference_arguments("why?"),
        vec!["run".to_string(), "tinyllama".to_string(), "why?".to_string()]
    );
    assert_eq!(
        inference_arguments(""),
        vec!["run".to_string(), "tinyllama".to_string(), String::new()]
    );
}

#[test]
fn trim_removes_white_space_at_both_ends_only() {
    assert_eq!(trim(""), "");
    assert_eq!(trim("   "), "");
    assert_eq!(trim("a"), "a");
    assert_eq!(trim("  a b  "), "a b");
    assert_eq!(trim("\t\n a\u{a0}b \r\n"), "a\u{a0}b");
    assert_eq!(trim("\u{2003}\u{3000}x\u{85}"), "x");
    assert_eq!(trim("\u{200b}x"), "\u{200b}x");
    for text in ["", " ", " a ", "\u{1680}a\u{2028}", "a  b", "\u{feff}a"] {
        assert_eq!(trim(text), text.trim());
    }
}

#[test]
fn starts_with_compares_the_leading_characters() {
    assert!(starts_with("/add Foo", "/add"));
    assert!(starts_with("/add", "/add"));
    assert!(starts_with("anything", ""));
    assert!(!starts_with("/ad", "/add"));
    assert!(!starts_with(" /add", "/add"));
    assert!(!starts_with("/Add", "/add"));
    assert!(starts_with("\u{e9}t\u{e9}", "\u{e9}t"));
}

#[test]
fn find_counts_up_to_the_first_delimiter() {
    assert_eq!(find("Foo #a @b", CharClass::Marker), 4);
    assert_eq!(find("Foo @b #a", CharClass::Marker), 4);
    assert_eq!(find("Foo #a @b", CharClass::At), 7);
    assert_eq!(find("a,b", CharClass::Comma), 1);
    assert_eq!(find("abc", CharClass::Comma), 3);
    assert_eq!(find("", CharClass::Marker), 0);
    assert_eq!(find("\u{e9}\u{e9} x", CharClass::Whitespace), 2);
    assert!(CharClass::Whitespace.contains(' '));
    assert!(CharClass::Whitespace.contains('\u{a0}'));
    assert!(!CharClass::Whitespace.contains('x'));
    assert!(CharClass::Marker.contains('#'));
    assert!(CharClass::Marker.contains('@'));
    assert!(!CharClass::At.contains('#'));
}

#[test]
fn white_space_is_what_the_standard_library_calls_white_space() {
    let mut count = 0;
    for code in 0..=0x10ffffu32 {
        if let Some(c) = char::from_u32(code) {
            assert_eq!(char_is_whitespace(c), c.is_whitespace(), "U+{code:04X}");
            assert_eq!(CharClass::Whitespace.contains(c), c.is_whitespace(), "U+{code:04X}");
            if char_is_whitespace(c) {
                count += 1;
            }
        }
    }
    assert_eq!(count, 25);
}
