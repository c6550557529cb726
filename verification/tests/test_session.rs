use file_manager::fs_utils::FileInfo;
use file_manager::input::{handle_input, report_action_error};
use file_manager::input_handlers::file_navigation::{adjust_selection, search_files};
use file_manager::input_handlers::modes::parse_octal;
use file_manager::paths::FsPath;
use file_manager::state::{Action, AppState, Key, KeyModifier, ListCursor, Mode, PromptMessage};

fn p(parts: &[&str]) -> FsPath {
    FsPath::from_components(parts.iter().map(|s| s.to_string()).collect())
}

fn entries(names: &[&str]) -> Vec<FileInfo> {
    names
        .iter()
        .map(|n| FileInfo { name: n.to_string(), perms: None, is_dir: false, is_exec: false })
        .collect()
}

struct Session {
    current_dir: FsPath,
    middle: ListCursor,
    left: ListCursor,
    scroll: usize,
    max_scroll: usize,
    app: AppState,
}

fn session() -> Session {
    Session {
        current_dir: p(&["home"]),
        middle: ListCursor::new(),
        left: ListCursor::new(),
        scroll: 0,
        max_scroll: 0,
        app: AppState::new(30),
    }
}

fn press(s: &mut Session, files: &Vec<FileInfo>, key: Key, modifier: KeyModifier) -> Action {
    handle_input(
        key,
        modifier,
        &mut s.current_dir,
        &mut s.middle,
        &mut s.left,
        files,
        &mut s.scroll,
        &s.max_scroll,
        &mut s.app,
        true,
    )
}

#[test]
fn search_wraps_forward_and_backward() {
    let files = entries(&["a", "ab", "b", "abc"]);
    // matches sit at indices 1 and 3; forward from 2 finds 3 first
    assert_eq!(search_files("ab", &files, 2, false), Some(3));
    // backward from 1 wraps past the front to 3
    assert_eq!(search_files("ab", &files, 1, true), Some(3));
    // forward from 0 finds the first match
    assert_eq!(search_files("ab", &files, 0, false), Some(1));
    // backward never re-finds the start index itself: only "b" at the
    // start index would match, so nothing is found
    assert_eq!(search_files("^b$", &files, 2, true), None);
}

#[test]
fn search_finds_nothing_for_invalid_pattern() {
    let files = entries(&["a", "ab"]);
    assert_eq!(search_files("(", &files, 0, false), None);
    assert_eq!(search_files("(", &files, 0, true), None);
}

#[test]
fn search_mode_runs_from_the_top_on_enter() {
    let mut s = session();
    let files = entries(&["alpha", "beta", "betagamma"]);
    assert!(matches!(press(&mut s, &files, Key::Char('/'), KeyModifier::Plain), Action::Idle));
    assert_eq!(s.app.mode, Mode::Search);
    press(&mut s, &files, Key::Char('b'), KeyModifier::Plain);
    press(&mut s, &files, Key::Char('e'), KeyModifier::Plain);
    assert_eq!(
        s.app.prompt_message,
        Some(PromptMessage::SearchInput { pattern: "be".to_string() })
    );
    press(&mut s, &files, Key::Enter, KeyModifier::Plain);
    assert_eq!(s.app.mode, Mode::Normal);
    assert_eq!(s.app.last_search_index, Some(1));
    assert_eq!(s.middle.selected(), Some(1));
    // next wraps onward from the selection
    press(&mut s, &files, Key::Char('n'), KeyModifier::Plain);
    assert_eq!(s.middle.selected(), Some(2));
    press(&mut s, &files, Key::Char('n'), KeyModifier::Plain);
    assert_eq!(s.middle.selected(), Some(1));
}

#[test]
fn every_mode_enters_from_normal_and_exits_to_normal() {
    let files = entries(&["one"]);
    let cases: Vec<(Key, Mode)> = vec![
        (Key::Char('/'), Mode::Search),
        (Key::Char('a'), Mode::CreateFile),
        (Key::Char('A'), Mode::CreateDirectory),
    ];
    for (key, mode) in cases {
        let mut s = session();
        press(&mut s, &files, key, KeyModifier::Plain);
        assert_eq!(s.app.mode, mode);
        press(&mut s, &files, Key::Esc, KeyModifier::Plain);
        assert_eq!(s.app.mode, Mode::Normal);
        assert!(s.app.text_buffer.is_none());
    }
    // the selection-bound modes need a selected entry
    let cases: Vec<(Key, Mode)> = vec![
        (Key::Char('r'), Mode::Rename),
        (Key::Char('c'), Mode::PermissionsEdit),
    ];
    for (key, mode) in cases {
        let mut s = session();
        press(&mut s, &files, key, KeyModifier::Plain);
        assert_eq!(s.app.mode, Mode::Normal);
        s.middle.select(Some(0));
        press(&mut s, &files, key, KeyModifier::Plain);
        assert_eq!(s.app.mode, mode);
        press(&mut s, &files, Key::Esc, KeyModifier::Plain);
        assert_eq!(s.app.mode, Mode::Normal);
    }
    // the delete confirmation leaves on yes or no
    let mut s = session();
    s.middle.select(Some(0));
    press(&mut s, &files, Key::Char('D'), KeyModifier::Shift);
    assert_eq!(s.app.mode, Mode::DeleteConfirm);
    press(&mut s, &files, Key::Char('x'), KeyModifier::Plain);
    assert_eq!(s.app.mode, Mode::DeleteConfirm);
    press(&mut s, &files, Key::Char('n'), KeyModifier::Plain);
    assert_eq!(s.app.mode, Mode::Normal);
}

#[test]
fn quit_comes_only_from_normal_mode() {
    let files = entries(&["one"]);
    let mut s = session();
    press(&mut s, &files, Key::Char('/'), KeyModifier::Plain);
    assert!(!matches!(press(&mut s, &files, Key::Char('q'), KeyModifier::Plain), Action::Quit));
    press(&mut s, &files, Key::Esc, KeyModifier::Plain);
    assert!(matches!(press(&mut s, &files, Key::Char('q'), KeyModifier::Plain), Action::Quit));
}

#[test]
fn rename_to_taken_name_reports_collision_and_asks_nothing() {
    let files = entries(&["first", "second"]);
    let mut s = session();
    s.middle.select(Some(0));
    press(&mut s, &files, Key::Char('r'), KeyModifier::Plain);
    assert_eq!(s.app.mode, Mode::Rename);
    for c in "second".chars() {
        press(&mut s, &files, Key::Char(c), KeyModifier::Plain);
    }
    let action = press(&mut s, &files, Key::Enter, KeyModifier::Plain);
    assert!(matches!(action, Action::Idle));
    assert_eq!(s.app.prompt_message, Some(PromptMessage::NameExists));
    assert_eq!(s.app.mode, Mode::Normal);
}

#[test]
fn rename_to_free_name_asks_for_the_rename() {
    let files = entries(&["first", "second"]);
    let mut s = session();
    s.middle.select(Some(0));
    press(&mut s, &files, Key::Char('r'), KeyModifier::Plain);
    for c in "third".chars() {
        press(&mut s, &files, Key::Char(c), KeyModifier::Plain);
    }
    let action = press(&mut s, &files, Key::Enter, KeyModifier::Plain);
    match action {
        Action::RenameEntry { src, dest } => {
            assert!(src.path_eq(&p(&["home", "first"])));
            assert!(dest.path_eq(&p(&["home", "third"])));
        }
        other => panic!("expected a rename request, got {:?}", other),
    }
}

#[test]
fn create_to_taken_name_reports_collision() {
    let files = entries(&["taken"]);
    let mut s = session();
    press(&mut s, &files, Key::Char('a'), KeyModifier::Plain);
    for c in "taken".chars() {
        press(&mut s, &files, Key::Char(c), KeyModifier::Plain);
    }
    let action = press(&mut s, &files, Key::Enter, KeyModifier::Plain);
    assert!(matches!(action, Action::Idle));
    assert_eq!(s.app.prompt_message, Some(PromptMessage::CreateNameExists));
}

#[test]
fn prompts_ignore_the_path_separator() {
    let files = entries(&["x"]);
    let mut s = session();
    press(&mut s, &files, Key::Char('a'), KeyModifier::Plain);
    for c in "a/b".chars() {
        press(&mut s, &files, Key::Char(c), KeyModifier::Plain);
    }
    assert_eq!(s.app.text_buffer, Some("ab".to_string()));
    let action = press(&mut s, &files, Key::Enter, KeyModifier::Plain);
    match action {
        Action::CreateFileAt { path } => assert!(path.path_eq(&p(&["home", "ab"]))),
        other => panic!("expected a file creation request, got {:?}", other),
    }
}

#[test]
fn create_directory_asks_for_the_creation() {
    let files = entries(&["taken"]);
    let mut s = session();
    press(&mut s, &files, Key::Char('A'), KeyModifier::Shift);
    for c in "fresh".chars() {
        press(&mut s, &files, Key::Char(c), KeyModifier::Plain);
    }
    let action = press(&mut s, &files, Key::Enter, KeyModifier::Plain);
    match action {
        Action::CreateDirectoryAt { path } => assert!(path.path_eq(&p(&["home", "fresh"]))),
        other => panic!("expected a directory creation request, got {:?}", other),
    }
}

#[test]
fn paste_after_copy_avoids_the_collision() {
    let files = entries(&["a.txt", "b.txt"]);
    let mut s = session();
    s.middle.select(Some(0));
    press(&mut s, &files, Key::Char('y'), KeyModifier::Plain);
    assert!(!s.app.was_cut);
    let action = press(&mut s, &files, Key::Char('p'), KeyModifier::Plain);
    match action {
        Action::CopyEntry { src, dest } => {
            assert!(src.path_eq(&p(&["home", "a.txt"])));
            assert!(dest.path_eq(&p(&["home", "a_1.txt"])));
        }
        other => panic!("expected a copy request, got {:?}", other),
    }
    assert!(s.app.selected_file_for_copy.is_none());
}

#[test]
fn paste_after_cut_keeps_the_literal_name() {
    let files = entries(&["a.txt", "b.txt"]);
    let mut s = session();
    s.middle.select(Some(0));
    press(&mut s, &files, Key::Char('x'), KeyModifier::Plain);
    assert!(s.app.was_cut);
    let action = press(&mut s, &files, Key::Char('p'), KeyModifier::Plain);
    match action {
        Action::MoveEntry { src, dest } => {
            assert!(src.path_eq(&p(&["home", "a.txt"])));
            assert!(dest.path_eq(&p(&["home", "a.txt"])));
        }
        other => panic!("expected a move request, got {:?}", other),
    }
    assert!(s.app.selected_file_for_copy.is_none());
    assert!(!s.app.was_cut);
}

#[test]
fn delete_confirmation_yes_asks_for_the_deletion() {
    let files = entries(&["victim"]);
    let mut s = session();
    s.middle.select(Some(0));
    press(&mut s, &files, Key::Char('D'), KeyModifier::Shift);
    assert_eq!(
        s.app.prompt_message,
        Some(PromptMessage::DeleteConfirm { name: "victim".to_string() })
    );
    let action = press(&mut s, &files, Key::Char('y'), KeyModifier::Plain);
    match action {
        Action::DeleteEntry { path } => assert!(path.path_eq(&p(&["home", "victim"]))),
        other => panic!("expected a delete request, got {:?}", other),
    }
    assert_eq!(s.app.mode, Mode::Normal);
    assert_eq!(s.app.prompt_message, None);
}

#[test]
fn permission_digits_parse_as_octal() {
    assert_eq!(parse_octal(&"644".to_string()), Some(0o644));
    assert_eq!(parse_octal(&"7".to_string()), Some(0o7));
    assert_eq!(parse_octal(&"755".to_string()), Some(0o755));
    assert_eq!(parse_octal(&"9".to_string()), None);
    assert_eq!(parse_octal(&"".to_string()), None);
}

#[test]
fn permission_prompt_rejects_bad_digits_and_applies_good_ones() {
    let files = entries(&["prog"]);
    let mut s = session();
    s.middle.select(Some(0));
    press(&mut s, &files, Key::Char('c'), KeyModifier::Plain);
    assert_eq!(s.app.mode, Mode::PermissionsEdit);
    press(&mut s, &files, Key::Char('9'), KeyModifier::Plain);
    press(&mut s, &files, Key::Char('9'), KeyModifier::Plain);
    let action = press(&mut s, &files, Key::Enter, KeyModifier::Plain);
    assert!(matches!(action, Action::Idle));
    assert_eq!(s.app.prompt_message, Some(PromptMessage::InvalidPermissions));

    s.middle.select(Some(0));
    press(&mut s, &files, Key::Char('c'), KeyModifier::Plain);
    press(&mut s, &files, Key::Char('7'), KeyModifier::Plain);
    press(&mut s, &files, Key::Char('5'), KeyModifier::Plain);
    press(&mut s, &files, Key::Char('5'), KeyModifier::Plain);
    // a fourth digit is ignored
    press(&mut s, &files, Key::Char('5'), KeyModifier::Plain);
    let action = press(&mut s, &files, Key::Enter, KeyModifier::Plain);
    match action {
        Action::SetPermissionsAt { path, mode_bits } => {
            assert!(path.path_eq(&p(&["home", "prog"])));
            assert_eq!(mode_bits, 0o755);
        }
        other => panic!("expected a permission request, got {:?}", other),
    }
}

#[test]
fn unsupported_platform_reports_instead_of_prompting() {
    let files = entries(&["prog"]);
    let mut s = session();
    s.middle.select(Some(0));
    let action = handle_input(
        Key::Char('c'),
        KeyModifier::Plain,
        &mut s.current_dir,
        &mut s.middle,
        &mut s.left,
        &files,
        &mut s.scroll,
        &s.max_scroll,
        &mut s.app,
        false,
    );
    assert!(matches!(action, Action::Idle));
    assert_eq!(s.app.mode, Mode::Normal);
    assert_eq!(s.app.prompt_message, Some(PromptMessage::PermissionsUnsupported));
}

#[test]
fn chord_jumps_to_top_on_the_second_press() {
    let files = entries(&["a", "b", "c"]);
    let mut s = session();
    s.middle.select(Some(2));
    press(&mut s, &files, Key::Char('g'), KeyModifier::Plain);
    assert_eq!(s.middle.selected(), Some(2));
    press(&mut s, &files, Key::Char('g'), KeyModifier::Plain);
    assert_eq!(s.middle.selected(), Some(0));
}

#[test]
fn chord_is_disarmed_by_an_intervening_key() {
    let files = entries(&["a", "b", "c"]);
    let mut s = session();
    s.middle.select(Some(2));
    press(&mut s, &files, Key::Char('g'), KeyModifier::Plain);
    press(&mut s, &files, Key::Char('k'), KeyModifier::Plain);
    press(&mut s, &files, Key::Char('g'), KeyModifier::Plain);
    // the chord had to start over, so no jump yet
    assert_eq!(s.middle.selected(), Some(1));
    press(&mut s, &files, Key::Char('g'), KeyModifier::Plain);
    assert_eq!(s.middle.selected(), Some(0));
}

#[test]
fn movement_steps_and_clamps() {
    let files = entries(&["a", "b", "c"]);
    let mut s = session();
    press(&mut s, &files, Key::Char('j'), KeyModifier::Plain);
    assert_eq!(s.middle.selected(), Some(0));
    press(&mut s, &files, Key::Char('j'), KeyModifier::Plain);
    press(&mut s, &files, Key::Char('j'), KeyModifier::Plain);
    press(&mut s, &files, Key::Char('j'), KeyModifier::Plain);
    assert_eq!(s.middle.selected(), Some(2));
    press(&mut s, &files, Key::Char('k'), KeyModifier::Plain);
    assert_eq!(s.middle.selected(), Some(1));
    press(&mut s, &files, Key::Char('G'), KeyModifier::Shift);
    assert_eq!(s.middle.selected(), Some(2));
}

#[test]
fn entering_a_directory_resets_the_cursor() {
    let mut files = entries(&["docs", "note.txt"]);
    files[0].is_dir = true;
    let mut s = session();
    s.middle.select(Some(0));
    let action = press(&mut s, &files, Key::Char('l'), KeyModifier::Plain);
    assert!(matches!(action, Action::Idle));
    assert!(s.current_dir.path_eq(&p(&["home", "docs"])));
    assert_eq!(s.middle.selected(), Some(0));
}

#[test]
fn entering_a_file_asks_for_the_editor() {
    let files = entries(&["note.txt"]);
    let mut s = session();
    s.middle.select(Some(0));
    let action = press(&mut s, &files, Key::Char('l'), KeyModifier::Plain);
    match action {
        Action::OpenEditor { path } => assert!(path.path_eq(&p(&["home", "note.txt"]))),
        other => panic!("expected an editor request, got {:?}", other),
    }
    assert!(s.current_dir.path_eq(&p(&["home"])));
}

#[test]
fn leaving_a_directory_goes_to_the_parent() {
    let files = entries(&[]);
    let mut s = session();
    press(&mut s, &files, Key::Char('h'), KeyModifier::Plain);
    assert!(s.current_dir.path_eq(&FsPath::root()));
    assert_eq!(s.middle.selected(), Some(0));
    // at the root there is no parent; the left pane cursor clears
    s.left.select(Some(3));
    press(&mut s, &files, Key::Char('h'), KeyModifier::Plain);
    assert!(s.current_dir.path_eq(&FsPath::root()));
    assert_eq!(s.left.selected(), None);
}

#[test]
fn adjust_selection_clears_on_empty_lists() {
    let mut cursor = ListCursor::new();
    cursor.select(Some(5));
    adjust_selection(&mut cursor, 0, true);
    assert_eq!(cursor.selected(), None);
    adjust_selection(&mut cursor, 3, true);
    assert_eq!(cursor.selected(), Some(0));
}

#[test]
fn failure_reports_name_the_operation() {
    let mut app = AppState::new(30);
    report_action_error(
        &mut app,
        &Action::MoveEntry { src: p(&["a"]), dest: p(&["b"]) },
        "device busy".to_string(),
    );
    assert_eq!(
        app.prompt_message,
        Some(PromptMessage::MoveFailed { detail: "device busy".to_string() })
    );
    report_action_error(
        &mut app,
        &Action::RenameEntry { src: p(&["home", "x"]), dest: p(&["home", "y"]) },
        "permission denied".to_string(),
    );
    assert_eq!(
        app.prompt_message,
        Some(PromptMessage::RenameFailed {
            name: "x".to_string(),
            detail: "permission denied".to_string()
        })
    );
    report_action_error(&mut app, &Action::OpenEditor { path: p(&["f"]) }, "vim".to_string());
    assert_eq!(app.prompt_message, Some(PromptMessage::EditorFailed { editor: "vim".to_string() }));
}

#[test]
fn normal_keys_clear_the_status_line() {
    let files = entries(&["one"]);
    let mut s = session();
    s.app.prompt_message = Some(PromptMessage::NameExists);
    press(&mut s, &files, Key::Char('j'), KeyModifier::Plain);
    assert_eq!(s.app.prompt_message, None);
}
