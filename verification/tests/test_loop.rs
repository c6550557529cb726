//! A whole session driven against the snapshot model: keys go through the
//! controller, and every action it emits is applied with the verified
//! filesystem operations, the way the surrounding program applies them to
//! the real filesystem.

use file_manager::fs_model::FsModel;
use file_manager::fs_utils::{copy, delete, get_files_and_dirs, move_file};
use file_manager::input::handle_input;
use file_manager::paths::FsPath;
use file_manager::state::{Action, AppState, Key, KeyModifier, ListCursor, Mode};

fn p(parts: &[&str]) -> FsPath {
    FsPath::from_components(parts.iter().map(|s| s.to_string()).collect())
}

struct Driver {
    fs: FsModel,
    current_dir: FsPath,
    middle: ListCursor,
    left: ListCursor,
    scroll: usize,
    max_scroll: usize,
    app: AppState,
}

impl Driver {
    fn new(fs: FsModel, cwd: FsPath) -> Driver {
        let mut middle = ListCursor::new();
        middle.select(Some(0));
        Driver {
            fs,
            current_dir: cwd,
            middle,
            left: ListCursor::new(),
            scroll: 0,
            max_scroll: 0,
            app: AppState::new(30),
        }
    }

    /// One loop iteration: a fresh listing, one key, one applied action.
    fn press(&mut self, key: Key, modifier: KeyModifier) -> Action {
        let files = get_files_and_dirs(&self.fs, &self.current_dir);
        file_manager::input_handlers::file_navigation::clamp_selection(
            &mut self.middle,
            files.len(),
        );
        let action = handle_input(
            key,
            modifier,
            &mut self.current_dir,
            &mut self.middle,
            &mut self.left,
            &files,
            &mut self.scroll,
            &self.max_scroll,
            &mut self.app,
            true,
        );
        match &action {
            Action::CopyEntry { src, dest } => copy(&mut self.fs, src, dest),
            Action::MoveEntry { src, dest } => move_file(&mut self.fs, src, dest),
            Action::RenameEntry { src, dest } => move_file(&mut self.fs, src, dest),
            Action::DeleteEntry { path } => delete(&mut self.fs, path),
            Action::CreateFileAt { path } => self.fs.create(path, false),
            Action::CreateDirectoryAt { path } => self.fs.create(path, true),
            Action::SetPermissionsAt { path, mode_bits } => {
                self.fs.set_perm_bits(path, *mode_bits)
            }
            _ => {}
        }
        action
    }

    fn type_text(&mut self, text: &str) {
        for c in text.chars() {
            self.press(Key::Char(c), KeyModifier::Plain);
        }
    }
}

fn sample() -> Driver {
    let mut fs = FsModel::empty();
    fs.create(&p(&["home"]), true);
    fs.write_file(&p(&["home", "a.txt"]), vec![1, 2]);
    fs.create(&p(&["home", "dir"]), true);
    fs.write_file(&p(&["home", "dir", "deep.txt"]), vec![3]);
    Driver::new(fs, p(&["home"]))
}

#[test]
fn copy_paste_duplicates_under_a_fresh_name() {
    let mut d = sample();
    // the cursor starts on "a.txt" (record order)
    d.press(Key::Char('y'), KeyModifier::Plain);
    d.press(Key::Char('p'), KeyModifier::Plain);
    assert_eq!(d.fs.read_file(&p(&["home", "a_1.txt"])).unwrap(), vec![1, 2]);
    assert_eq!(d.fs.read_file(&p(&["home", "a.txt"])).unwrap(), vec![1, 2]);
}

#[test]
fn cut_paste_into_a_subdirectory_moves() {
    let mut d = sample();
    d.press(Key::Char('x'), KeyModifier::Plain);
    // step onto "dir" and enter it
    d.press(Key::Char('j'), KeyModifier::Plain);
    d.press(Key::Char('l'), KeyModifier::Plain);
    assert!(d.current_dir.path_eq(&p(&["home", "dir"])));
    d.press(Key::Char('p'), KeyModifier::Plain);
    assert!(!d.fs.exists_at(&p(&["home", "a.txt"])));
    assert_eq!(d.fs.read_file(&p(&["home", "dir", "a.txt"])).unwrap(), vec![1, 2]);
}

#[test]
fn create_rename_and_delete_through_the_prompts() {
    let mut d = sample();
    d.press(Key::Char('a'), KeyModifier::Plain);
    assert_eq!(d.app.mode, Mode::CreateFile);
    d.type_text("fresh.txt");
    d.press(Key::Enter, KeyModifier::Plain);
    assert!(d.fs.exists_at(&p(&["home", "fresh.txt"])));

    // the new entry is listed; find it and rename it
    let files = get_files_and_dirs(&d.fs, &d.current_dir);
    let idx = files.iter().position(|f| f.name == "fresh.txt").unwrap();
    d.middle.select(Some(idx));
    d.press(Key::Char('r'), KeyModifier::Plain);
    d.type_text("renamed.txt");
    d.press(Key::Enter, KeyModifier::Plain);
    assert!(!d.fs.exists_at(&p(&["home", "fresh.txt"])));
    assert!(d.fs.exists_at(&p(&["home", "renamed.txt"])));

    let files = get_files_and_dirs(&d.fs, &d.current_dir);
    let idx = files.iter().position(|f| f.name == "renamed.txt").unwrap();
    d.middle.select(Some(idx));
    d.press(Key::Char('D'), KeyModifier::Shift);
    assert_eq!(d.app.mode, Mode::DeleteConfirm);
    d.press(Key::Char('y'), KeyModifier::Plain);
    assert!(!d.fs.exists_at(&p(&["home", "renamed.txt"])));
}

#[test]
fn deleting_a_directory_takes_its_descendants() {
    let mut d = sample();
    let files = get_files_and_dirs(&d.fs, &d.current_dir);
    let idx = files.iter().position(|f| f.name == "dir").unwrap();
    d.middle.select(Some(idx));
    d.press(Key::Char('D'), KeyModifier::Shift);
    d.press(Key::Char('y'), KeyModifier::Plain);
    assert!(!d.fs.exists_at(&p(&["home", "dir"])));
    assert!(!d.fs.exists_at(&p(&["home", "dir", "deep.txt"])));
}

#[test]
fn permission_change_lands_on_the_model() {
    let mut d = sample();
    d.press(Key::Char('c'), KeyModifier::Plain);
    assert_eq!(d.app.mode, Mode::PermissionsEdit);
    d.type_text("640");
    d.press(Key::Enter, KeyModifier::Plain);
    let files = get_files_and_dirs(&d.fs, &d.current_dir);
    let a = files.iter().find(|f| f.name == "a.txt").unwrap();
    assert_eq!(a.perms, Some(0o640));
}
