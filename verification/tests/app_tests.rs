use crabsync::app::{initial_pair, Action, App, Key, KeyInput, Mode};
use crabsync::config::{tag_pairs, Pair, PairSource};
use crabsync::sync::{SyncError, SyncResult, SyncStep};
use crabsync::tree::{tree_from_entries, FileNode};

fn press(key: Key) -> KeyInput {
    KeyInput { key, pressed: true }
}

fn ch(c: char) -> KeyInput {
    press(Key::Char(c))
}

fn pair(name: &str) -> Pair {
    Pair { name: name.to_string(), local: format!("/{}", name), remote: format!("h:/{}", name) }
}

fn sample_tree() -> FileNode {
    let entries = vec![
        (vec!["subdir".to_string()], true),
        (vec!["subdir".to_string(), "file2.txt".to_string()], false),
        (vec!["file1.txt".to_string()], false),
    ];
    tree_from_entries(Some("p".to_string()), &entries)
}

fn app_with_tree() -> App {
    let mut app = App::new(tag_pairs(vec![pair("a")], vec![]));
    app.open_pair(pair("a"), sample_tree());
    app
}

#[test]
fn new_app_starts_on_pair_list() {
    let app = App::new(tag_pairs(vec![pair("a")], vec![pair("b")]));
    assert_eq!(app.mode, Mode::PairList);
    assert_eq!(app.pairs.len(), 2);
    assert_eq!(app.pair_index, 0);
    assert!(app.tree.is_none());
}

#[test]
fn pair_list_navigation_stays_in_range() {
    let mut app = App::new(tag_pairs(vec![pair("a"), pair("b")], vec![]));
    app.handle_key(ch('j'));
    assert_eq!(app.pair_index, 1);
    app.handle_key(press(Key::Down));
    assert_eq!(app.pair_index, 1);
    app.handle_key(ch('k'));
    app.handle_key(press(Key::Up));
    assert_eq!(app.pair_index, 0);
    app.handle_key(KeyInput { key: Key::Char('j'), pressed: false });
    assert_eq!(app.pair_index, 0);
}

#[test]
fn enter_asks_to_open_the_pair_under_cursor() {
    let mut app = App::new(tag_pairs(vec![pair("a"), pair("b")], vec![]));
    app.handle_key(ch('j'));
    match app.handle_key(press(Key::Enter)) {
        Action::OpenPair(p) => assert_eq!(p.name, "b"),
        other => panic!("unexpected {:?}", other),
    }
    let mut empty = App::new(Vec::new());
    assert!(matches!(empty.handle_key(press(Key::Enter)), Action::Nothing));
}

#[test]
fn delete_asks_to_remove_and_reports() {
    let mut app = App::new(tag_pairs(vec![], vec![pair("g")]));
    match app.handle_key(ch('d')) {
        Action::RemovePair(name, source) => {
            assert_eq!(name, "g");
            assert_eq!(source, PairSource::Global);
        }
        other => panic!("unexpected {:?}", other),
    }
    app.finish_remove_pair(&"g".to_string(), PairSource::Global, Ok(Vec::new()));
    assert_eq!(app.status_msg, "deleted pair 'g' from global config");
    app.finish_remove_pair(&"g".to_string(), PairSource::Global, Err("boom".to_string()));
    assert_eq!(app.status_msg, "error: boom");
}

#[test]
fn quit_keys() {
    let mut app = App::new(Vec::new());
    app.handle_key(ch('q'));
    assert!(app.should_quit);
    let mut app = App::new(Vec::new());
    app.handle_key(press(Key::Esc));
    assert!(app.should_quit);
}

#[test]
fn help_returns_to_previous_screen() {
    let mut app = app_with_tree();
    app.handle_key(ch('?'));
    assert_eq!(app.mode, Mode::Help);
    app.handle_key(KeyInput { key: Key::Esc, pressed: false });
    assert_eq!(app.mode, Mode::FileTree);
}

#[test]
fn open_pair_shows_rows() {
    let app = app_with_tree();
    assert_eq!(app.mode, Mode::FileTree);
    assert_eq!(app.tree_items.len(), 3);
    assert_eq!(app.tree_items[0].0, 0);
    assert_eq!(app.tree_items[1].1.relative_path, "subdir");
    assert_eq!(app.tree_items[2].1.relative_path, "file1.txt");
}

#[test]
fn tree_keys_toggle_and_expand() {
    let mut app = app_with_tree();
    app.handle_key(ch('j'));
    app.handle_key(press(Key::Enter));
    assert_eq!(app.tree_items.len(), 4);
    assert_eq!(app.tree_items[2].1.relative_path, "subdir/file2.txt");
    app.handle_key(ch('j'));
    app.handle_key(ch(' '));
    assert!(app.tree_items[2].1.selected);
    assert_eq!(
        app.tree.as_ref().unwrap().collect_selected(),
        vec!["subdir/file2.txt".to_string()]
    );
    app.handle_key(ch('j'));
    app.handle_key(ch('j'));
    assert_eq!(app.tree_cursor, 3);
}

#[test]
fn select_all_key_flips_everything() {
    let mut app = app_with_tree();
    app.handle_key(ch('a'));
    assert!(app.select_all);
    assert_eq!(app.tree.as_ref().unwrap().collect_selected().len(), 2);
    app.handle_key(ch('a'));
    assert!(app.tree.as_ref().unwrap().collect_selected().is_empty());
}

#[test]
fn dry_run_without_selection_sets_status() {
    let mut app = app_with_tree();
    assert!(matches!(app.handle_key(ch('s')), Action::Nothing));
    assert_eq!(app.status_msg, "no files selected");
}

#[test]
fn dry_run_flow_to_preview() {
    let mut app = app_with_tree();
    app.handle_key(ch('a'));
    let req = match app.handle_key(ch('s')) {
        Action::DryRun(q) => q,
        other => panic!("unexpected {:?}", other),
    };
    assert_eq!(req.local, "/a");
    assert_eq!(req.remote, "h:/a");
    assert_eq!(req.files, vec!["subdir/file2.txt".to_string(), "file1.txt".to_string()]);
    app.finish_dry_run(&req, Err(SyncError::AuthRequired));
    assert_eq!(app.mode, Mode::SyncPreview);
    assert!(app.dry_run_output.starts_with("Authentication required"));
    assert!(app.sync_command.contains("File list:\n  subdir/file2.txt\n  file1.txt"));
    app.finish_dry_run(&req, Err(SyncError::Other("bad".to_string())));
    assert_eq!(app.status_msg, "dry-run error: bad");
}

#[test]
fn sync_flow_with_password() {
    let mut app = app_with_tree();
    app.handle_key(ch('a'));
    let req = match app.handle_key(ch('s')) {
        Action::DryRun(q) => q,
        other => panic!("unexpected {:?}", other),
    };
    app.finish_dry_run(&req, Ok("file1.txt".to_string()));
    assert!(matches!(app.handle_key(ch('y')), Action::Sync(_)));
    assert!(app.finish_sync(Err(SyncError::AuthRequired)));
    app.finish_interactive_sync(Ok(SyncStep::NeedPassword));
    assert_eq!(app.mode, Mode::PasswordInput);
    app.handle_key(ch('p'));
    app.handle_key(ch('w'));
    app.handle_key(ch('x'));
    app.handle_key(press(Key::Backspace));
    match app.handle_key(press(Key::Enter)) {
        Action::SubmitPassword(pw) => assert_eq!(pw, "pw"),
        other => panic!("unexpected {:?}", other),
    }
    assert!(app.password_buffer.is_empty());
    app.finish_password(Ok(SyncStep::NeedPassword));
    assert_eq!(app.mode, Mode::PasswordInput);
    app.finish_password(Ok(SyncStep::Done(SyncResult { output: "done".to_string(), success: true })));
    assert_eq!(app.mode, Mode::SyncProgress);
    assert_eq!(app.sync_output, "done");
    assert!(!app.sync_error);
    assert!(matches!(app.handle_key(press(Key::Enter)), Action::ReloadPairs));
    assert_eq!(app.mode, Mode::PairList);
    assert!(app.tree.is_none());
}

#[test]
fn cancel_password_goes_back_to_preview() {
    let mut app = app_with_tree();
    app.finish_interactive_sync(Ok(SyncStep::NeedPassword));
    app.handle_key(ch('s'));
    assert!(matches!(app.handle_key(press(Key::Esc)), Action::DropSession));
    assert_eq!(app.mode, Mode::SyncPreview);
    assert_eq!(app.status_msg, "sync cancelled");
    assert!(app.password_buffer.is_empty());
    assert!(!app.awaiting_password);
}

#[test]
fn interactive_sync_without_prompt_shows_fallback() {
    let mut app = app_with_tree();
    app.finish_interactive_sync(Err(SyncError::AuthRequired));
    assert_eq!(app.mode, Mode::SyncProgress);
    assert!(app.sync_error);
    assert!(app.sync_output.ends_with("ssh-keygen -t ed25519\nssh-copy-id <remote>"));
}

#[test]
fn finish_sync_shows_result_or_error() {
    let mut app = app_with_tree();
    assert!(!app.finish_sync(Ok(SyncResult { output: "x".to_string(), success: false })));
    assert!(app.sync_error);
    assert_eq!(app.mode, Mode::SyncProgress);
    let mut app = app_with_tree();
    assert!(!app.finish_sync(Err(SyncError::Other("oops".to_string()))));
    assert_eq!(app.sync_output, "oops");
}

#[test]
fn password_error_message_shown() {
    let mut app = app_with_tree();
    app.finish_password(Err(SyncError::AuthRequired));
    assert_eq!(app.sync_output, "authentication required: SSH key not configured");
    assert!(app.sync_error);
}

#[test]
fn add_pair_form_flow() {
    let mut app = App::new(Vec::new());
    app.handle_key(ch('a'));
    assert_eq!(app.mode, Mode::AddPair);
    assert!(matches!(app.handle_key(press(Key::Enter)), Action::Nothing));
    assert_eq!(app.status_msg, "name, local and remote are required");
    for c in "nm".chars() {
        app.handle_key(ch(c));
    }
    app.handle_key(press(Key::Tab));
    app.handle_key(ch('/'));
    app.handle_key(press(Key::Tab));
    for c in "h:/r".chars() {
        app.handle_key(ch(c));
    }
    app.handle_key(press(Key::Tab));
    assert_eq!(app.add_pair_focus, 3);
    app.handle_key(ch(' '));
    assert_eq!(app.add_pair_scope, PairSource::Global);
    app.handle_key(press(Key::BackTab));
    assert_eq!(app.add_pair_focus, 2);
    app.handle_key(press(Key::Backspace));
    assert_eq!(app.add_pair_remote, "h:/");
    match app.handle_key(press(Key::Enter)) {
        Action::AddPair(p, s) => {
            assert_eq!(p, Pair { name: "nm".into(), local: "/".into(), remote: "h:/".into() });
            assert_eq!(s, PairSource::Global);
        }
        other => panic!("unexpected {:?}", other),
    }
    app.finish_add_pair(&"nm".to_string(), PairSource::Global, Ok(Vec::new()));
    assert_eq!(app.mode, Mode::PairList);
    assert_eq!(app.status_msg, "added pair 'nm' to global config");
}

#[test]
fn add_pair_delete_clears_field_and_esc_leaves() {
    let mut app = App::new(Vec::new());
    app.start_add_pair();
    app.handle_key(ch('x'));
    app.handle_key(press(Key::Delete));
    assert!(app.add_pair_name.is_empty());
    app.handle_key(press(Key::Esc));
    assert_eq!(app.mode, Mode::PairList);
}

#[test]
fn set_pairs_keeps_cursor() {
    let mut app = App::new(tag_pairs(vec![pair("a"), pair("b")], vec![]));
    app.handle_key(ch('j'));
    app.set_pairs(tag_pairs(vec![pair("a")], vec![]));
    assert_eq!(app.pair_index, 1);
    assert_eq!(app.pairs.len(), 1);
}

#[test]
fn file_tree_escape_returns_to_pairs() {
    let mut app = app_with_tree();
    app.handle_key(press(Key::Esc));
    assert_eq!(app.mode, Mode::PairList);
    assert!(app.tree.is_none());
    assert!(app.tree_items.is_empty());
    assert!(app.current_pair.is_none());
}

#[test]
fn preview_back_clears_output() {
    let mut app = app_with_tree();
    app.handle_key(ch('a'));
    let req = match app.handle_key(ch('s')) {
        Action::DryRun(q) => q,
        other => panic!("unexpected {:?}", other),
    };
    app.finish_dry_run(&req, Ok("out".to_string()));
    app.handle_key(ch('n'));
    assert_eq!(app.mode, Mode::FileTree);
    assert!(app.dry_run_output.is_empty());
    assert!(app.sync_command.is_empty());
}

#[test]
fn show_error_sets_status() {
    let mut app = App::new(Vec::new());
    app.show_error("no such directory");
    assert_eq!(app.status_msg, "error: no such directory");
}

#[test]
fn tree_cursor_down_up_round_trip() {
    let mut app = app_with_tree();
    app.tree_cursor_down();
    assert_eq!(app.tree_cursor, 1);
    app.tree_cursor_up();
    assert_eq!(app.tree_cursor, 0);
    app.tree_cursor_up();
    assert_eq!(app.tree_cursor, 0);
    app.tree_cursor_down();
    app.tree_cursor_down();
    app.tree_cursor_down();
    assert_eq!(app.tree_cursor, 2);
}

#[test]
fn backspace_on_empty_password_keeps_it_empty() {
    let mut app = app_with_tree();
    app.finish_interactive_sync(Ok(SyncStep::NeedPassword));
    app.handle_key(press(Key::Backspace));
    assert!(app.password_buffer.is_empty());
    app.handle_key(ch('z'));
    assert_eq!(app.password_buffer, "z");
}

#[test]
fn initial_pair_finds_first_of_name() {
    let mut other = pair("a");
    other.local = "/other".to_string();
    let pairs = tag_pairs(vec![pair("b"), pair("a")], vec![other]);
    let found = initial_pair(&pairs, &"a".to_string()).unwrap();
    assert_eq!(found.local, "/a");
    let shadowed_only = tag_pairs(vec![], vec![pair("g"), pair("g")]);
    assert_eq!(initial_pair(&shadowed_only, &"g".to_string()).unwrap().name, "g");
}

#[test]
fn initial_pair_reports_missing_name() {
    let pairs = tag_pairs(vec![pair("a")], vec![]);
    assert_eq!(initial_pair(&pairs, &"zzz".to_string()).unwrap_err(), "pair 'zzz' not found");
    assert_eq!(initial_pair(&Vec::new(), &"".to_string()).unwrap_err(), "pair '' not found");
}

#[test]
fn initial_pair_then_open_shows_tree() {
    let pairs = tag_pairs(vec![pair("a")], vec![]);
    let p = initial_pair(&pairs, &"a".to_string()).unwrap();
    assert_eq!(p, pair("a"));
    let mut app = App::new(pairs);
    app.open_pair(p, sample_tree());
    assert_eq!(app.mode, Mode::FileTree);
    assert_eq!(app.current_pair, Some(pair("a")));
    assert_eq!(app.tree_items.len(), 3);
    assert_eq!(app.tree_cursor, 0);
}

#[test]
fn selection_toggle_keeps_row_count_and_cursor() {
    let mut app = app_with_tree();
    app.handle_key(ch('j'));
    app.handle_key(press(Key::Enter));
    let rows = app.tree_items.len();
    app.handle_key(ch('j'));
    app.handle_key(ch('k'));
    let cursor = app.tree_cursor;
    app.toggle_tree_item();
    assert_eq!(app.tree_items.len(), rows);
    assert_eq!(app.tree_cursor, cursor);
    assert!(app.tree_items[cursor].1.selected);
    app.handle_key(ch(' '));
    assert_eq!(app.tree_items.len(), rows);
    assert_eq!(app.tree_cursor, cursor);
    assert!(!app.tree_items[cursor].1.selected);
}
