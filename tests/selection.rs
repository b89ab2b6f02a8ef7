use chuck::commit::Commit;
use chuck::keys::{command_for, Command, Key, KeyPress};
use chuck::selection::{handle_key_event, App, CursorPolicy};
use chuck::timestamp::Timestamp;

fn commit(n: i64) -> Commit {
    Commit {
        hash: format!("{:040}", n),
        short_hash: format!("{:07}", n),
        message: format!("change {}", n),
        files: vec![format!("file{}.rs", n)],
        author: "dev".to_string(),
        timestamp: Timestamp { secs: 1_700_000_000 + n, nanos: 0, offset_secs: 0 },
    }
}

fn commits(n: i64) -> Vec<Commit> {
    (1..=n).map(commit).collect()
}

fn press(key: Key) -> KeyPress {
    KeyPress { key, ctrl: false }
}

fn selected_hashes(app: &App) -> Vec<String> {
    app.get_selected().into_iter().map(|c| c.hash).collect()
}

#[test]
fn new_puts_cursor_on_first_commit() {
    let app = App::new(commits(3));
    assert_eq!(app.cursor(), Some(0));
    assert_eq!(app.selected_count(), 0);
    assert!(!app.should_quit());
    assert!(!app.show_help());
}

#[test]
fn empty_list_has_no_cursor_and_ignores_moves() {
    let mut app = App::new(Vec::new());
    assert_eq!(app.cursor(), None);
    app.next();
    app.previous();
    app.toggle_current();
    assert_eq!(app.cursor(), None);
    assert!(app.current_commit().is_none());
    assert_eq!(app.selected_count(), 0);
}

#[test]
fn wrap_policy_goes_round_at_both_ends() {
    let mut app = App::new(commits(3));
    app.previous();
    assert_eq!(app.cursor(), Some(2));
    app.next();
    assert_eq!(app.cursor(), Some(0));
    app.next();
    app.next();
    assert_eq!(app.cursor(), Some(2));
}

#[test]
fn clamp_policy_stays_at_both_ends() {
    let mut app = App::with_policy(commits(3), CursorPolicy::Clamp);
    app.previous();
    assert_eq!(app.cursor(), Some(0));
    for _ in 0..5 {
        app.next();
    }
    assert_eq!(app.cursor(), Some(2));
}

#[test]
fn cursor_stays_in_bounds_under_many_moves() {
    for policy in [CursorPolicy::Wrap, CursorPolicy::Clamp] {
        let mut app = App::with_policy(commits(4), policy);
        for step in 0..50u32 {
            if step % 3 == 0 {
                app.previous();
            } else {
                app.next();
            }
            let c = app.cursor().unwrap();
            assert!(c < 4);
        }
    }
}

#[test]
fn toggle_twice_restores_flag() {
    let mut app = App::new(commits(3));
    app.next();
    let before = app.is_selected(1);
    app.toggle_current();
    assert_ne!(app.is_selected(1), before);
    app.toggle_current();
    assert_eq!(app.is_selected(1), before);
}

#[test]
fn selected_follows_list_order_not_toggle_order() {
    let mut app = App::new(commits(4));
    app.next();
    app.next();
    app.next();
    app.toggle_current();
    app.previous();
    app.previous();
    app.previous();
    app.toggle_current();
    app.next();
    app.toggle_current();
    let all: Vec<String> = commits(4).into_iter().map(|c| c.hash).collect();
    assert_eq!(selected_hashes(&app), vec![all[0].clone(), all[1].clone(), all[3].clone()]);
    assert_eq!(app.selected_count(), 3);
}

#[test]
fn bulk_operations_keep_cursor() {
    let mut app = App::new(commits(3));
    app.next();
    app.select_all();
    assert_eq!(app.selected_count(), 3);
    assert_eq!(app.cursor(), Some(1));
    app.toggle_current();
    app.invert_selection();
    assert_eq!(app.selected_count(), 1);
    assert!(app.is_selected(1));
    app.select_none();
    assert_eq!(app.selected_count(), 0);
    assert_eq!(app.cursor(), Some(1));
}

#[test]
fn current_commit_is_under_cursor() {
    let mut app = App::new(commits(2));
    app.next();
    assert_eq!(app.current_commit().unwrap().hash, commit(2).hash);
    assert_eq!(app.commits().len(), 2);
}

#[test]
fn keys_map_to_commands() {
    assert_eq!(command_for(press(Key::Char('q'))), Command::Quit);
    assert_eq!(command_for(press(Key::Esc)), Command::Quit);
    assert_eq!(command_for(KeyPress { key: Key::Char('c'), ctrl: true }), Command::ForceQuit);
    assert_eq!(command_for(press(Key::Char('c'))), Command::Ignore);
    assert_eq!(command_for(press(Key::Char('j'))), Command::Down);
    assert_eq!(command_for(press(Key::Down)), Command::Down);
    assert_eq!(command_for(press(Key::Char('k'))), Command::Up);
    assert_eq!(command_for(press(Key::Up)), Command::Up);
    assert_eq!(command_for(press(Key::Char(' '))), Command::Toggle);
    assert_eq!(command_for(press(Key::Char('a'))), Command::SelectAll);
    assert_eq!(command_for(press(Key::Char('n'))), Command::SelectNone);
    assert_eq!(command_for(press(Key::Char('i'))), Command::Invert);
    assert_eq!(command_for(press(Key::Char('h'))), Command::ToggleHelp);
    assert_eq!(command_for(press(Key::Char('?'))), Command::ToggleHelp);
    assert_eq!(command_for(press(Key::Enter)), Command::Confirm);
    assert_eq!(command_for(press(Key::Other)), Command::Ignore);
}

#[test]
fn quit_closes_help_first() {
    let mut app = App::new(commits(2));
    assert!(!handle_key_event(&mut app, press(Key::Char('h'))));
    assert!(app.show_help());
    assert!(!handle_key_event(&mut app, press(Key::Enter)));
    assert!(!handle_key_event(&mut app, press(Key::Char('q'))));
    assert!(!app.show_help());
    assert!(!app.should_quit());
    assert!(handle_key_event(&mut app, press(Key::Esc)));
    assert!(app.should_quit());
}

#[test]
fn enter_confirms_selection() {
    let mut app = App::new(commits(2));
    assert!(!handle_key_event(&mut app, press(Key::Char(' '))));
    assert!(!handle_key_event(&mut app, press(Key::Char('j'))));
    assert!(handle_key_event(&mut app, press(Key::Enter)));
    assert!(!app.should_quit());
    assert_eq!(selected_hashes(&app), vec![commit(1).hash]);
}

#[test]
fn control_c_quits_even_with_help() {
    let mut app = App::new(commits(1));
    handle_key_event(&mut app, press(Key::Char('?')));
    assert!(handle_key_event(&mut app, KeyPress { key: Key::Char('c'), ctrl: true }));
    assert!(app.should_quit());
}

#[test]
fn same_flags_give_same_selection() {
    let mut a = App::new(commits(4));
    a.select_all();
    a.toggle_current();
    a.next();
    a.next();
    a.toggle_current();
    let mut b = App::new(commits(4));
    b.previous();
    b.previous();
    b.toggle_current();
    b.invert_selection();
    b.next();
    b.next();
    b.toggle_current();
    b.toggle_current();
    b.toggle_current();
    b.invert_selection();
    b.invert_selection();
    assert_eq!(selected_hashes(&a), selected_hashes(&b));
    assert_eq!(selected_hashes(&a), vec![commit(2).hash, commit(4).hash]);
}
