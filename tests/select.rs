use select_dialog::{
    classify, event_contains_key, event_matches_key, ConfigError, Event, KeyCode, KeyEvent,
    KeyModifiers, Line, Outcome, Select, SelectDialogKey,
};

fn press(code: KeyCode) -> Event {
    Event::Key(KeyEvent { code, modifiers: KeyModifiers::none() })
}

fn press_with(code: KeyCode, modifiers: KeyModifiers) -> Event {
    Event::Key(KeyEvent { code, modifiers })
}

fn texts(items: &[&str]) -> Vec<String> {
    items.iter().map(|s| s.to_string()).collect()
}

fn started<'a>(items: &'a Vec<&'a str>) -> Select<'a, &'a str> {
    let mut dialog = Select::new(items).unwrap();
    dialog.start(texts(items));
    dialog
}

fn row(line: &Line) -> String {
    line.to_chars().into_iter().collect()
}

#[test]
fn it_works() {}

#[test]
fn three_items_down_past_the_end_then_confirm() {
    let items = vec!["a", "b", "c"];
    let mut dialog = started(&items);
    let mut seen = vec![dialog.selected_index()];
    for _ in 0..3 {
        assert_eq!(dialog.handle_event(&press(KeyCode::Down)), Outcome::Moved(SelectDialogKey::DownKey));
        seen.push(dialog.selected_index());
    }
    assert_eq!(seen, vec![0, 1, 2, 2]);
    assert_eq!(dialog.handle_event(&press(KeyCode::Enter)), Outcome::Confirmed);
    assert_eq!(*dialog.selected(), "c");
}

#[test]
fn custom_up_key_moves_back() {
    let items = vec!["a", "b"];
    let mut dialog = Select::new(&items).unwrap();
    assert_eq!(dialog.add_up_key(KeyCode::Char('k')), Ok(()));
    dialog.start(texts(&items));
    assert_eq!(dialog.handle_event(&press(KeyCode::Down)), Outcome::Moved(SelectDialogKey::DownKey));
    assert_eq!(dialog.selected_index(), 1);
    assert_eq!(dialog.handle_event(&press(KeyCode::Char('k'))), Outcome::Moved(SelectDialogKey::UpKey));
    assert_eq!(dialog.selected_index(), 0);
    assert_eq!(dialog.handle_event(&press(KeyCode::Enter)), Outcome::Confirmed);
    assert_eq!(*dialog.selected(), "a");
}

#[test]
fn scripted_session_stops_at_confirm() {
    let items = vec!["a", "b", "c"];
    let mut dialog = started(&items);
    let events = vec![
        press(KeyCode::Down),
        press(KeyCode::Down),
        press(KeyCode::Down),
        press(KeyCode::Enter),
        press(KeyCode::Up),
        press(KeyCode::Up),
    ];
    assert_eq!(dialog.run_events(&events), Some(3));
    assert_eq!(dialog.selected_index(), 2);
    assert_eq!(*dialog.selected(), "c");
}

#[test]
fn scripted_session_without_confirm() {
    let items = vec!["a", "b", "c"];
    let mut dialog = started(&items);
    let events = vec![press(KeyCode::Down), press(KeyCode::Char('x')), press(KeyCode::Down), press(KeyCode::Up)];
    assert_eq!(dialog.run_events(&events), None);
    assert_eq!(dialog.selected_index(), 1);
}

#[test]
fn empty_list_is_refused() {
    let items: Vec<&str> = vec![];
    assert!(matches!(Select::new(&items), Err(ConfigError::EmptyItems)));
}

#[test]
fn enter_cannot_be_a_move_key() {
    let items = vec!["a", "b"];
    let mut dialog = Select::new(&items).unwrap();
    dialog.underline_selected_item();
    dialog.pointer('*');
    assert_eq!(dialog.add_up_key(KeyCode::Enter), Err(ConfigError::ConfirmKeyAsMoveKey));
    assert_eq!(dialog.add_down_key(KeyCode::Enter), Err(ConfigError::ConfirmKeyAsMoveKey));
    assert_eq!(dialog.set_up_key(KeyCode::Enter), Err(ConfigError::ConfirmKeyAsMoveKey));
    assert_eq!(dialog.set_down_key(KeyCode::Enter), Err(ConfigError::ConfirmKeyAsMoveKey));
    assert_eq!(dialog.add_down_key(KeyCode::Char('j')), Ok(()));
    dialog.start(texts(&items));
    assert_eq!(dialog.handle_event(&press(KeyCode::Enter)), Outcome::Confirmed);
    assert_eq!(*dialog.selected(), "a");
}

#[test]
fn modifier_held_never_matches() {
    let items = vec!["a", "b", "c"];
    let mut dialog = Select::new(&items).unwrap();
    dialog.add_down_key(KeyCode::Char('j')).unwrap();
    dialog.start(texts(&items));
    for m in [KeyModifiers::shift(), KeyModifiers::control(), KeyModifiers::alt()] {
        assert_eq!(dialog.handle_event(&press_with(KeyCode::Down, m)), Outcome::Ignored);
        assert_eq!(dialog.handle_event(&press_with(KeyCode::Char('j'), m)), Outcome::Ignored);
        assert_eq!(dialog.handle_event(&press_with(KeyCode::Enter, m)), Outcome::Ignored);
    }
    assert_eq!(dialog.selected_index(), 0);
    assert!(!event_matches_key(&press_with(KeyCode::Up, KeyModifiers::shift()), KeyCode::Up));
    assert!(event_matches_key(&press(KeyCode::Up), KeyCode::Up));
}

#[test]
fn boundaries_are_no_ops() {
    let items = vec!["a", "b"];
    let mut dialog = started(&items);
    assert_eq!(dialog.handle_event(&press(KeyCode::Up)), Outcome::Moved(SelectDialogKey::UpKey));
    assert_eq!(dialog.selected_index(), 0);
    dialog.handle_event(&press(KeyCode::Down));
    dialog.handle_event(&press(KeyCode::Down));
    assert_eq!(dialog.selected_index(), 1);
}

#[test]
fn single_item_stays_put() {
    let items = vec!["only"];
    let mut dialog = started(&items);
    dialog.handle_event(&press(KeyCode::Down));
    dialog.handle_event(&press(KeyCode::Up));
    assert_eq!(dialog.selected_index(), 0);
    assert_eq!(*dialog.selected(), "only");
}

#[test]
fn other_events_are_discarded() {
    let items = vec!["a", "b"];
    let mut dialog = started(&items);
    assert_eq!(dialog.handle_event(&Event::Other), Outcome::Ignored);
    assert_eq!(dialog.handle_event(&press(KeyCode::Char('q'))), Outcome::Ignored);
    assert_eq!(dialog.selected_index(), 0);
}

#[test]
fn replaced_default_key_takes_over() {
    let items = vec!["a", "b"];
    let mut dialog = Select::new(&items).unwrap();
    dialog.set_down_key(KeyCode::Tab).unwrap();
    dialog.start(texts(&items));
    assert_eq!(dialog.handle_event(&press(KeyCode::Down)), Outcome::Ignored);
    assert_eq!(dialog.handle_event(&press(KeyCode::Tab)), Outcome::Moved(SelectDialogKey::DownKey));
    assert_eq!(dialog.selected_index(), 1);
}

#[test]
fn classify_prefers_confirm_then_up() {
    let up = vec![KeyCode::Char('k')];
    let down = vec![KeyCode::Char('k')];
    assert_eq!(classify(&press(KeyCode::Char('k')), &up, KeyCode::Up, &down, KeyCode::Down), Outcome::Moved(SelectDialogKey::UpKey));
    assert_eq!(classify(&press(KeyCode::Down), &up, KeyCode::Up, &down, KeyCode::Down), Outcome::Moved(SelectDialogKey::DownKey));
    assert_eq!(classify(&press(KeyCode::Enter), &up, KeyCode::Up, &down, KeyCode::Down), Outcome::Confirmed);
    assert!(event_contains_key(&press(KeyCode::F(3)), &vec![KeyCode::Esc, KeyCode::F(3)]));
    assert!(!event_contains_key(&press(KeyCode::F(3)), &vec![]));
}

#[test]
fn rows_show_the_selection() {
    let items = vec!["a", "bb", "c"];
    let mut dialog = Select::new(&items).unwrap();
    dialog.pointer('*');
    dialog.not_selected_pointer('-');
    dialog.underline_selected_item();
    dialog.move_selected_item_forward();
    dialog.start(texts(&items));
    dialog.handle_event(&press(KeyCode::Down));
    let lines = dialog.lines();
    assert_eq!(dialog.rows(), 3);
    let shown: Vec<String> = lines.iter().map(row).collect();
    assert_eq!(shown, vec!["- a", "*  bb", "- c"]);
    assert!(lines[1].underlined && !lines[0].underlined && !lines[2].underlined);
    let blank: String = lines[1].blank().into_iter().collect();
    assert_eq!(blank, "     ");
}

#[test]
fn default_rows() {
    let items = vec!["one", "two"];
    let dialog = started(&items);
    let shown: Vec<String> = dialog.lines().iter().map(row).collect();
    assert_eq!(shown, vec!["> one", "  two"]);
}

#[test]
fn line_styles() {
    let mut line = Line::new("héllo".to_string(), '>', ' ');
    assert_eq!(row(&line), "  héllo");
    line.select();
    line.space_from_pointer(2);
    assert_eq!(row(&line), ">   héllo");
    line.underline();
    line.default();
    assert!(!line.selected && !line.underlined && line.indent == 0);
    assert_eq!(line.blank().len(), 8);
}
