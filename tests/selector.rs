use tui_selector::session::{command_for, Command, Event, Key, Phase, Session, Step};
use tui_selector::tui_selector::SelectorTUI;

const FG_BLACK: &str = "\x1b[38;5;0m";
const BG_WHITE: &str = "\x1b[48;5;7m";
const FG_RESET: &str = "\x1b[39m";
const BG_RESET: &str = "\x1b[49m";
const KEYS: &str =
    " total)  [l/right:select  enter:run selection  q/h/left:quit  a:select all  n:deselect all] ";

fn entries(names: &[&str]) -> Vec<String> {
    names.iter().map(|s| s.to_string()).collect()
}

fn numbered(n: usize) -> Vec<String> {
    (0..n).map(|i| format!("e{}", i)).collect()
}

fn goto(row: usize) -> String {
    format!("\x1b[{};1H", row)
}

#[test]
fn move_down_wraps_from_last_to_first() {
    let mut s = SelectorTUI::new(entries(&["a", "b", "c"]));
    s.move_down();
    assert_eq!(s.cursor(), 2);
    s.move_down();
    assert_eq!(s.cursor(), 3);
    s.move_down();
    assert_eq!(s.cursor(), 1);
}

#[test]
fn move_up_wraps_from_first_to_last() {
    let mut s = SelectorTUI::new(entries(&["a", "b", "c"]));
    s.move_up();
    assert_eq!(s.cursor(), 3);
    s.move_up();
    assert_eq!(s.cursor(), 2);
}

#[test]
fn single_entry_cursor_stays() {
    let mut s = SelectorTUI::new(entries(&["only"]));
    s.move_down();
    assert_eq!(s.cursor(), 1);
    s.move_up();
    assert_eq!(s.cursor(), 1);
}

#[test]
fn go_top_and_bottom() {
    let mut s = SelectorTUI::new(numbered(4));
    s.go_bottom();
    assert_eq!(s.cursor(), 4);
    s.go_top();
    assert_eq!(s.cursor(), 1);
}

#[test]
fn toggle_twice_restores_selection() {
    let mut s = SelectorTUI::new(numbered(4));
    s.move_down();
    s.toggle_selection();
    assert!(s.is_selected(1));
    assert_eq!(s.cursor(), 3);
    s.move_up();
    s.toggle_selection();
    assert!(!s.is_selected(1));
    assert_eq!(s.retrieve_selection(), None);
    assert_eq!(s.cursor(), 3);
}

#[test]
fn toggle_twice_keeps_other_entries() {
    let mut s = SelectorTUI::new(numbered(3));
    s.toggle_selection();
    s.toggle_selection();
    s.move_up();
    s.toggle_selection();
    assert_eq!(s.retrieve_selection(), Some(vec![0]));
}

#[test]
fn select_all_then_none() {
    let mut s = SelectorTUI::new(numbered(4));
    s.toggle_selection();
    s.select_all();
    assert_eq!(s.retrieve_selection(), Some(vec![0, 1, 2, 3]));
    s.select_none();
    assert_eq!(s.retrieve_selection(), None);
}

#[test]
fn toggles_on_positions_one_three_five() {
    let mut s = SelectorTUI::new(numbered(5));
    s.toggle_selection();
    s.move_down();
    s.toggle_selection();
    s.move_down();
    s.toggle_selection();
    let mut got = s.retrieve_selection().unwrap();
    got.sort();
    assert_eq!(got, vec![0, 2, 4]);
    assert_eq!(s.cursor(), 1);
}

#[test]
fn scroll_follows_cursor_down_then_snaps_to_top() {
    let mut s = SelectorTUI::new(numbered(10));
    let lines: Vec<String> = (0..11).map(|i| format!("line{}", i)).collect();
    for _ in 0..5 {
        s.move_down();
    }
    // cursor 6: content row 7, window of 5 rows scrolls to offset 2
    let shown = s.calculate_lines_to_draw(&lines, 5);
    assert_eq!(s.scroll_top(), 2);
    assert_eq!(shown, lines[2..7].to_vec());
    // cursor back up inside the window: offset kept
    s.move_up();
    let shown = s.calculate_lines_to_draw(&lines, 5);
    assert_eq!(s.scroll_top(), 2);
    assert_eq!(shown, lines[2..7].to_vec());
    // cursor still inside the window: offset kept
    s.move_up();
    s.move_up();
    s.calculate_lines_to_draw(&lines, 5);
    assert_eq!(s.scroll_top(), 2);
    // cursor row at or above the window's first row: back to the top
    s.move_up();
    s.move_up();
    assert_eq!(s.cursor(), 1);
    let shown = s.calculate_lines_to_draw(&lines, 5);
    assert_eq!(s.scroll_top(), 0);
    assert_eq!(shown, lines[0..5].to_vec());
}

#[test]
fn scroll_wraps_to_top_from_bottom() {
    let mut s = SelectorTUI::new(numbered(10));
    let lines: Vec<String> = (0..11).map(|i| format!("line{}", i)).collect();
    s.go_bottom();
    let shown = s.calculate_lines_to_draw(&lines, 4);
    assert_eq!(s.scroll_top(), 7);
    assert_eq!(shown, lines[7..11].to_vec());
    s.move_down();
    let shown = s.calculate_lines_to_draw(&lines, 4);
    assert_eq!(s.scroll_top(), 0);
    assert_eq!(shown, lines[0..4].to_vec());
}

#[test]
fn window_larger_than_content_shows_everything() {
    let mut s = SelectorTUI::new(numbered(3));
    let lines: Vec<String> = (0..4).map(|i| format!("line{}", i)).collect();
    s.go_bottom();
    let shown = s.calculate_lines_to_draw(&lines, 39);
    assert_eq!(s.scroll_top(), 0);
    assert_eq!(shown.len(), 4);
}

#[test]
fn window_after_terminal_grows_stays_within_content() {
    let mut s = SelectorTUI::new(numbered(10));
    let lines: Vec<String> = (0..11).map(|i| format!("line{}", i)).collect();
    s.go_bottom();
    s.calculate_lines_to_draw(&lines, 4);
    assert_eq!(s.scroll_top(), 7);
    let shown = s.calculate_lines_to_draw(&lines, 8);
    assert_eq!(s.scroll_top(), 7);
    assert_eq!(shown, lines[7..11].to_vec());
}

#[test]
fn refresh_content_draws_header_and_entries() {
    let mut s = SelectorTUI::new(entries(&["alpha", "beta", "gamma"]));
    s.move_down();
    s.toggle_selection();
    let frame = s.refresh_content(40);
    let header = format!("{}{} (1 selected / 3{}", FG_BLACK, BG_WHITE, KEYS);
    let expected = format!(
        "\x1b[2J{}\x1b[?25l{}{}{}{}{}{}{}{}",
        goto(1),
        goto(1),
        header,
        goto(2),
        format!("{}{}  alpha", FG_RESET, BG_RESET),
        goto(3),
        format!("{}{}  beta{}{}", FG_BLACK, BG_WHITE, FG_RESET, BG_RESET),
        goto(4),
        format!("{}{}> gamma", FG_RESET, BG_RESET),
    );
    assert_eq!(frame, expected);
    assert_eq!(s.scroll_top(), 0);
}

#[test]
fn refresh_content_on_small_terminal_shows_cursor_row() {
    let mut s = SelectorTUI::new(numbered(10));
    s.go_bottom();
    // 4 rows: 3 for content
    let frame = s.refresh_content(4);
    assert_eq!(s.scroll_top(), 8);
    assert!(frame.contains(&format!("{}{}{}  e7", goto(1), FG_RESET, BG_RESET)));
    assert!(frame.contains(&format!("{}{}{}> e9", goto(3), FG_RESET, BG_RESET)));
    assert!(!frame.contains(&goto(4)));
}

#[test]
fn quit_restores_terminal() {
    let s = SelectorTUI::new(numbered(2));
    let expected = format!(
        "\x1b[2J{}\x1b[?25l{}{}\x1b[2J{}\x1b[?25h\x1b[?25h",
        goto(1),
        FG_RESET,
        BG_RESET,
        goto(1)
    );
    assert_eq!(s.quit(), expected);
}

#[test]
fn output_selection_lists_trimmed_entries() {
    let mut s = SelectorTUI::new(entries(&["  one ", "two", "three\t"]));
    s.go_bottom();
    s.toggle_selection();
    s.toggle_selection();
    let expected = format!(
        "\x1b[2J{}\x1b[?25l{}{}{}three\n{}{}{}one\n{}{}{}\x1b[?25h",
        goto(1),
        goto(1),
        FG_RESET,
        BG_RESET,
        goto(2),
        FG_RESET,
        BG_RESET,
        goto(3),
        FG_RESET,
        BG_RESET
    );
    assert_eq!(s.output_selection(), expected);
}

#[test]
fn output_selection_trims_unicode_white_space() {
    let mut s = SelectorTUI::new(entries(&["\u{3000}\u{a0} x y\u{2028}\n"]));
    s.toggle_selection();
    let expected = format!(
        "\x1b[2J{}\x1b[?25l{}{}{}x y\n{}{}{}\x1b[?25h",
        goto(1),
        goto(1),
        FG_RESET,
        BG_RESET,
        goto(2),
        FG_RESET,
        BG_RESET
    );
    assert_eq!(s.output_selection(), expected);
}

#[test]
fn output_selection_with_nothing_selected() {
    let s = SelectorTUI::new(entries(&["a"]));
    let expected = format!("\x1b[2J{}\x1b[?25l{}{}{}\x1b[?25h", goto(1), goto(1), FG_RESET, BG_RESET);
    assert_eq!(s.output_selection(), expected);
}

#[test]
fn key_bindings() {
    assert_eq!(command_for(Key::Left), Command::Quit);
    assert_eq!(command_for(Key::Char('q')), Command::Quit);
    assert_eq!(command_for(Key::Char('h')), Command::Quit);
    assert_eq!(command_for(Key::Up), Command::MoveUp);
    assert_eq!(command_for(Key::Char('k')), Command::MoveUp);
    assert_eq!(command_for(Key::Down), Command::MoveDown);
    assert_eq!(command_for(Key::Char('j')), Command::MoveDown);
    assert_eq!(command_for(Key::Right), Command::Toggle);
    assert_eq!(command_for(Key::Char('l')), Command::Toggle);
    assert_eq!(command_for(Key::Char('a')), Command::SelectAll);
    assert_eq!(command_for(Key::Char('n')), Command::SelectNone);
    assert_eq!(command_for(Key::Char('\n')), Command::Confirm);
    assert_eq!(command_for(Key::Char('x')), Command::Ignore);
    assert_eq!(command_for(Key::Other), Command::Ignore);
}

fn run(session: &mut Session, events: &[Event]) -> (usize, usize, usize) {
    let (mut draws, mut finishes, mut idles) = (0, 0, 0);
    for e in events {
        match session.step(*e, 24) {
            Step::Draw(_) => draws += 1,
            Step::Finish(_) => finishes += 1,
            Step::Idle => idles += 1,
        }
    }
    (draws, finishes, idles)
}

#[test]
fn scenario_toggle_move_toggle_confirm() {
    let mut session = Session::new(entries(&["alpha", "beta", "gamma"]));
    session.render(24);
    session.step(Event::Key(Key::Right), 24);
    assert_eq!(session.selector().cursor(), 2);
    session.step(Event::Key(Key::Down), 24);
    assert_eq!(session.selector().cursor(), 3);
    session.step(Event::Key(Key::Char('l')), 24);
    assert_eq!(session.selector().cursor(), 1);
    match session.step(Event::Key(Key::Char('\n')), 24) {
        Step::Finish(t) => assert_eq!(t, session.selector().quit()),
        _ => panic!("confirm must end the session"),
    }
    assert_eq!(session.phase(), Phase::Confirmed);
    let mut got = session.into_selection().unwrap();
    got.sort();
    assert_eq!(got, vec![0, 2]);
}

#[test]
fn scenario_quit_without_toggles() {
    let mut session = Session::new(entries(&["alpha", "beta", "gamma"]));
    session.step(Event::Key(Key::Char('q')), 24);
    assert_eq!(session.phase(), Phase::Cancelled);
    assert_eq!(session.into_selection(), None);
}

#[test]
fn confirm_with_nothing_selected_differs_from_quit() {
    let mut session = Session::new(entries(&["alpha", "beta", "gamma"]));
    session.step(Event::Key(Key::Char('\n')), 24);
    assert_eq!(session.phase(), Phase::Confirmed);
    assert_eq!(session.into_selection(), None);
}

#[test]
fn quit_after_toggles_discards_selection() {
    let mut session = Session::new(entries(&["alpha", "beta"]));
    session.step(Event::Key(Key::Right), 24);
    session.step(Event::Key(Key::Left), 24);
    assert_eq!(session.phase(), Phase::Cancelled);
    assert_eq!(session.into_selection(), None);
}

#[test]
fn select_all_keys_then_confirm() {
    let mut session = Session::new(numbered(3));
    session.step(Event::Key(Key::Char('a')), 24);
    session.step(Event::Key(Key::Char('\n')), 24);
    assert_eq!(session.into_selection(), Some(vec![0, 1, 2]));
}

#[test]
fn select_none_key_clears() {
    let mut session = Session::new(numbered(3));
    session.step(Event::Key(Key::Char('a')), 24);
    session.step(Event::Key(Key::Char('n')), 24);
    session.step(Event::Key(Key::Char('\n')), 24);
    assert_eq!(session.into_selection(), None);
}

#[test]
fn cleanup_once_on_quit() {
    let mut session = Session::new(numbered(3));
    let evs = [Event::Key(Key::Down), Event::Key(Key::Char('q')), Event::Key(Key::Down), Event::Failure];
    assert_eq!(run(&mut session, &evs), (1, 1, 2));
}

#[test]
fn cleanup_once_on_confirm() {
    let mut session = Session::new(numbered(3));
    let evs = [Event::Key(Key::Right), Event::Key(Key::Char('\n')), Event::Key(Key::Char('\n'))];
    assert_eq!(run(&mut session, &evs), (1, 1, 1));
    assert_eq!(session.into_selection(), Some(vec![0]));
}

#[test]
fn cleanup_once_on_failure() {
    let mut session = Session::new(numbered(3));
    let evs = [Event::Key(Key::Char('x')), Event::Failure, Event::Key(Key::Char('q')), Event::Closed];
    assert_eq!(run(&mut session, &evs), (1, 1, 2));
    assert_eq!(session.phase(), Phase::Failed);
}

#[test]
fn cleanup_once_when_keys_end() {
    let mut session = Session::new(numbered(3));
    let evs = [Event::Closed, Event::Closed];
    assert_eq!(run(&mut session, &evs), (0, 1, 1));
    assert_eq!(session.phase(), Phase::Cancelled);
}
