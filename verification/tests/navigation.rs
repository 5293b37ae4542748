use tronk::card::Card;
use tronk::navigation::{first_signal, move_cursor, Signal};
use tronk::state::Tronk;

fn card(name: &str) -> Card {
    Card {
        id: 0x0123_4567_89ab_4def_8123_4567_89ab_cdef,
        name: name.to_string(),
        description: String::new(),
        url: String::new(),
        tags: vec!["t".to_string()],
        folders: vec![],
    }
}

fn store(n: usize) -> Vec<Card> {
    (0..n).map(|i| card(&format!("card {i}"))).collect()
}

#[test]
fn cursor_moves_in_a_grid_of_ten_by_three() {
    assert_eq!(move_cursor(4, Signal::Up, 10, 3), 1);
    assert_eq!(move_cursor(4, Signal::Down, 10, 3), 7);
    assert_eq!(move_cursor(4, Signal::Left, 10, 3), 3);
    assert_eq!(move_cursor(4, Signal::Right, 10, 3), 5);
    assert_eq!(move_cursor(4, Signal::Open, 10, 3), 4);
    assert_eq!(move_cursor(0, Signal::Up, 10, 3), 0);
    assert_eq!(move_cursor(0, Signal::Left, 10, 3), 0);
}

#[test]
fn cursor_stops_at_the_edges() {
    assert_eq!(move_cursor(9, Signal::Right, 10, 3), 9);
    assert_eq!(move_cursor(9, Signal::Down, 10, 3), 9);
    assert_eq!(move_cursor(7, Signal::Down, 10, 3), 7);
    assert_eq!(move_cursor(6, Signal::Down, 10, 3), 9);
    assert_eq!(move_cursor(2, Signal::Up, 10, 3), 2);
    assert_eq!(move_cursor(3, Signal::Up, 10, 3), 0);
    assert_eq!(move_cursor(3, Signal::Left, 10, 3), 2);
    assert_eq!(move_cursor(0, Signal::Right, 1, 3), 0);
    assert_eq!(move_cursor(0, Signal::Down, 1, 1), 0);
}

#[test]
fn cursor_stays_put_in_a_grid_without_columns() {
    for signal in [Signal::Up, Signal::Down] {
        assert_eq!(move_cursor(4, signal, 10, 0), 4);
    }
}

#[test]
fn cursor_does_not_overflow() {
    assert_eq!(move_cursor(5, Signal::Down, 10, usize::MAX), 5);
    assert_eq!(move_cursor(usize::MAX, Signal::Right, usize::MAX, 1), usize::MAX);
    assert_eq!(move_cursor(usize::MAX, Signal::Down, usize::MAX, 1), usize::MAX);
    assert_eq!(move_cursor(5, Signal::Up, 10, usize::MAX), 5);
}

#[test]
fn first_key_wins() {
    assert_eq!(first_signal(false, false, false, false, false), None);
    assert_eq!(first_signal(true, true, true, true, true), Some(Signal::Up));
    assert_eq!(first_signal(false, true, true, true, true), Some(Signal::Down));
    assert_eq!(first_signal(false, false, true, true, true), Some(Signal::Left));
    assert_eq!(first_signal(false, false, false, true, true), Some(Signal::Right));
    assert_eq!(first_signal(false, false, false, false, true), Some(Signal::Open));
    assert_eq!(first_signal(true, false, false, false, true), Some(Signal::Up));
}

#[test]
fn missing_cursor_is_put_on_the_first_card_and_drops_the_signal() {
    let mut state = Tronk::new(Some(store(10)));
    assert_eq!(state.selected_card(), None);
    state.navigate(Some(Signal::Right), 3);
    assert_eq!(state.selected_card(), Some(0));
    state.navigate(Some(Signal::Right), 3);
    assert_eq!(state.selected_card(), Some(1));
    state.navigate(None, 3);
    assert_eq!(state.selected_card(), Some(1));
}

#[test]
fn empty_store_has_no_cursor() {
    let mut state = Tronk::new(None);
    state.navigate(None, 3);
    assert_eq!(state.selected_card(), None);
    state.navigate(Some(Signal::Open), 3);
    assert_eq!(state.selected_card(), None);
    assert!(state.detailed_card().is_none());
    assert_eq!(state.system_output_text(), "");
}

#[test]
fn navigating_walks_the_grid() {
    let mut state = Tronk::new(Some(store(10)));
    state.navigate(None, 3);
    for signal in [Signal::Down, Signal::Right] {
        state.navigate(Some(signal), 3);
    }
    assert_eq!(state.selected_card(), Some(4));
    state.navigate(Some(Signal::Up), 3);
    assert_eq!(state.selected_card(), Some(1));
    state.navigate(Some(Signal::Down), 3);
    state.navigate(Some(Signal::Down), 3);
    assert_eq!(state.selected_card(), Some(7));
    state.navigate(Some(Signal::Down), 3);
    assert_eq!(state.selected_card(), Some(7));
    state.navigate(Some(Signal::Left), 3);
    assert_eq!(state.selected_card(), Some(6));
    assert_eq!(state.cards().len(), 10);
    assert!(state.undo_stack().is_empty());
}

#[test]
fn open_shows_the_card_under_the_cursor() {
    let mut state = Tronk::new(Some(store(4)));
    state.navigate(None, 2);
    state.navigate(Some(Signal::Down), 2);
    state.navigate(Some(Signal::Open), 2);
    assert_eq!(state.selected_card(), Some(2));
    assert_eq!(state.detailed_card(), Some(&state.cards()[2]));
    assert_eq!(state.system_output_text(), "Selected card: card 2");
    state.close_details();
    assert!(state.detailed_card().is_none());
    assert_eq!(state.selected_card(), Some(2));
}

#[test]
fn click_opens_the_card_that_was_hit() {
    let mut state = Tronk::new(Some(store(3)));
    assert!(state.click_card(1));
    assert_eq!(state.detailed_card(), Some(&state.cards()[1]));
    assert_eq!(state.system_output_text(), "Clicked card: card 1");
    assert_eq!(state.selected_card(), None);
    assert!(!state.click_card(3));
    assert_eq!(state.detailed_card(), Some(&state.cards()[1]));
    assert_eq!(state.system_output_text(), "Clicked card: card 1");
}

#[test]
fn cursor_survives_a_new_card() {
    let mut state = Tronk::new(Some(store(2)));
    state.navigate(None, 3);
    state.navigate(Some(Signal::Right), 3);
    state.set_user_input_text("/add third".to_string());
    state.process_input();
    assert_eq!(state.selected_card(), Some(1));
    state.navigate(Some(Signal::Right), 3);
    assert_eq!(state.selected_card(), Some(2));
}
