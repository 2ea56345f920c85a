use snova::{AutocompleteMode, Key, Outcome, Readline, ValueType, WINDOW_ROWS};

fn typed(rl: &Readline) -> String {
    rl.input().into_iter().collect()
}

#[test]
fn number_prompt_filters_characters() {
    let mut rl = Readline::new().expect(ValueType::Number);
    rl.line();
    assert_eq!(Outcome::Continue, rl.handle_key(Key::Char('a')));
    assert_eq!("", typed(&rl));
    rl.handle_key(Key::Char('4'));
    rl.handle_key(Key::Char('2'));
    assert_eq!("42", typed(&rl));
    rl.handle_key(Key::Left);
    rl.handle_key(Key::Char('x'));
    assert_eq!("42", typed(&rl));
    rl.handle_key(Key::Char('7'));
    assert_eq!("472", typed(&rl));
    assert_eq!(2, rl.cursor());
}

#[test]
fn editing_keys_move_and_delete() {
    let mut rl = Readline::new();
    rl.line();
    for c in "abcd".chars() {
        rl.handle_key(Key::Char(c));
    }
    rl.handle_key(Key::Left);
    rl.handle_key(Key::Backspace);
    assert_eq!("abd", typed(&rl));
    assert_eq!(2, rl.cursor());
    rl.handle_key(Key::Right);
    rl.handle_key(Key::Right);
    assert_eq!(3, rl.cursor());
    rl.handle_key(Key::Left);
    rl.handle_key(Key::Ctrl('u'));
    assert_eq!("d", typed(&rl));
    assert_eq!(0, rl.cursor());
    rl.handle_key(Key::Backspace);
    assert_eq!("d", typed(&rl));
}

#[test]
fn enter_in_line_mode() {
    let mut rl = Readline::new().expect(ValueType::String);
    rl.line();
    assert_eq!(Outcome::Continue, rl.handle_key(Key::Char('\n')));
    rl.handle_key(Key::Char('v'));
    assert_eq!(Outcome::Commit(None), rl.handle_key(Key::Char('\n')));
    let mut plain = Readline::new();
    plain.line();
    assert_eq!(Outcome::Commit(None), plain.handle_key(Key::Char('\n')));
}

#[test]
fn strict_choice_needs_a_candidate() {
    let mut rl = Readline::new().help("Pick a command:".to_string());
    rl.choice();
    assert_eq!(AutocompleteMode::Enabled { allow_user_input: false }, rl.mode());
    rl.refresh(0);
    assert_eq!(Outcome::Continue, rl.handle_key(Key::Char('\n')));
    rl.refresh(3);
    rl.handle_key(Key::Down);
    assert_eq!(Outcome::Commit(Some(1)), rl.handle_key(Key::Char('\n')));
    assert_eq!(Some("Pick a command:"), rl.get_help());
}

#[test]
fn suggest_commits_typed_text() {
    let mut rl = Readline::new().prefix("NAME:".to_string());
    rl.suggest();
    rl.handle_key(Key::Char('z'));
    rl.refresh(2);
    assert_eq!(3, rl.rows());
    rl.handle_key(Key::Down);
    rl.handle_key(Key::Down);
    assert_eq!(2, rl.selected());
    assert_eq!(Outcome::Commit(None), rl.handle_key(Key::Char('\n')));
    assert_eq!("NAME:", rl.get_prefix());
}

#[test]
fn interrupt_and_dismiss() {
    let mut rl = Readline::new();
    rl.choice();
    assert_eq!(Outcome::Interrupt, rl.handle_key(Key::Ctrl('c')));
    assert_eq!(Outcome::Cancel, rl.handle_key(Key::Ctrl('d')));
}

#[test]
fn navigation_keeps_selection_in_window() {
    let mut rl = Readline::new();
    rl.choice();
    rl.refresh(20);
    let keys = [Key::Down; 15];
    for k in keys.iter().chain([Key::Up; 12].iter()).chain([Key::Down; 30].iter()) {
        rl.handle_key(*k);
        let (s, o) = (rl.selected(), rl.scroll_offset());
        assert!(o <= s && s < o + WINDOW_ROWS, "selected {} offset {}", s, o);
    }
    assert_eq!(19, rl.selected());
    assert_eq!(13, rl.scroll_offset());
}

#[test]
fn scrolling_moves_one_row_at_a_time() {
    let mut rl = Readline::new();
    rl.choice();
    rl.refresh(10);
    for _ in 0..7 {
        rl.handle_key(Key::Down);
    }
    assert_eq!(7, rl.selected());
    assert_eq!(1, rl.scroll_offset());
    rl.handle_key(Key::Up);
    assert_eq!(1, rl.scroll_offset());
    for _ in 0..6 {
        rl.handle_key(Key::Up);
    }
    assert_eq!(0, rl.selected());
    assert_eq!(0, rl.scroll_offset());
}

#[test]
fn shrinking_list_pulls_selection_back() {
    let mut rl = Readline::new();
    rl.choice();
    rl.refresh(12);
    for _ in 0..11 {
        rl.handle_key(Key::Down);
    }
    rl.refresh(2);
    assert_eq!(1, rl.selected());
    assert_eq!(1, rl.scroll_offset());
}

#[test]
fn candidate_window_layout() {
    assert_eq!((4, 0, 3), snova::candidate_window(3, 0));
    assert_eq!((0, 2, 9), snova::candidate_window(20, 2));
    assert_eq!((0, 13, 20), snova::candidate_window(20, 13));
    assert_eq!((7, 0, 0), snova::candidate_window(0, 0));
}
