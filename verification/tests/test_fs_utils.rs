use file_manager::fs_model::FsModel;
use file_manager::fs_utils::{
    copy, create_file_info, delete, fetch_children, get_files_and_dirs, get_parent_content,
    make_unique_path, move_file, update_selected_dir, FileInfo,
};
use file_manager::paths::FsPath;
use file_manager::state::ListCursor;

fn p(parts: &[&str]) -> FsPath {
    FsPath::from_components(parts.iter().map(|s| s.to_string()).collect())
}

fn file_info(name: &str) -> FileInfo {
    FileInfo { name: name.to_string(), perms: None, is_dir: false, is_exec: false }
}

#[test]
fn test_update_selected_dir() {
    let files = vec![file_info("test.txt")];
    let current_dir = p(&["tmp"]);
    let mut selected_dir = FsPath::root();
    let mut middle_state = ListCursor::new();
    middle_state.select(Some(0));
    let mut scroll_position = 0usize;

    update_selected_dir(&files, &current_dir, &mut selected_dir, &middle_state, &mut scroll_position);
    assert!(selected_dir.path_eq(&p(&["tmp", "test.txt"])));
}

#[test]
fn test_fetch_children_for_empty_dir() {
    let mut fs = FsModel::empty();
    fs.create(&p(&["dir"]), true);
    let children = fetch_children(&fs, Some(&p(&["dir"])), 0, 5);

    assert_eq!(children.0[0].name, "empty");
    assert_eq!(children.1, 0);
}

#[test]
fn test_fetch_children_for_dir_with_files() {
    let mut fs = FsModel::empty();
    fs.create(&p(&["dir"]), true);
    fs.create(&p(&["dir", "test.txt"]), false);

    let children = fetch_children(&fs, Some(&p(&["dir"])), 0, 5);
    assert_eq!(children.0[0].name, "test.txt");
}

#[test]
fn test_make_unique_path() {
    let mut fs = FsModel::empty();
    fs.create(&p(&["dir"]), true);
    fs.create(&p(&["dir", "test.txt"]), false);

    let unique_path = make_unique_path(&fs, p(&["dir", "test.txt"]));
    assert!(unique_path.path_eq(&p(&["dir", "test_1.txt"])));
}

#[test]
fn test_copy_file() {
    let mut fs = FsModel::empty();
    fs.create(&p(&["src"]), true);
    fs.create(&p(&["dest"]), true);
    fs.create(&p(&["src", "test.txt"]), false);

    copy(&mut fs, &p(&["src", "test.txt"]), &p(&["dest", "test.txt"]));
    assert!(fs.exists_at(&p(&["dest", "test.txt"])));
}

#[test]
fn test_delete_file() {
    let mut fs = FsModel::empty();
    fs.create(&p(&["dir"]), true);
    fs.create(&p(&["dir", "test.txt"]), false);

    delete(&mut fs, &p(&["dir", "test.txt"]));
    assert!(!fs.exists_at(&p(&["dir", "test.txt"])));
}

#[test]
fn test_move_file() {
    let mut fs = FsModel::empty();
    fs.create(&p(&["src"]), true);
    fs.create(&p(&["dest"]), true);
    fs.create(&p(&["src", "test.txt"]), false);

    move_file(&mut fs, &p(&["src", "test.txt"]), &p(&["dest", "test_moved.txt"]));
    assert!(!fs.exists_at(&p(&["src", "test.txt"])));
    assert!(fs.exists_at(&p(&["dest", "test_moved.txt"])));
}

#[test]
fn test_get_files_and_dirs() {
    let mut fs = FsModel::empty();
    fs.create(&p(&["dir"]), true);
    fs.create(&p(&["dir", "test1.txt"]), false);
    fs.create(&p(&["dir", "test2.txt"]), false);
    fs.create(&p(&["dir", "testdir"]), true);

    let items = get_files_and_dirs(&fs, &p(&["dir"]));
    assert_eq!(items.len(), 3);
    assert!(items.iter().any(|item| item.name == "test1.txt"));
    assert!(items.iter().any(|item| item.name == "test2.txt"));
    assert!(items.iter().any(|item| item.name == "testdir"));
}

#[test]
fn test_get_parent_content() {
    let mut fs = FsModel::empty();
    fs.create(&p(&["dir"]), true);
    fs.create(&p(&["dir", "subdir"]), true);
    fs.create(&p(&["dir", "subdir", "test.txt"]), false);

    let parent_content = get_parent_content(&fs, &p(&["dir", "subdir"]));
    assert_eq!(parent_content.len(), 1);
    assert_eq!(parent_content[0].name, "subdir");
}

#[test]
fn test_create_file_info() {
    let name = "test_file".to_string();
    let info = create_file_info(name.clone());
    assert_eq!(info.name, name);
    assert_eq!(info.is_dir, false);
}

#[test]
fn test_copy_dir_to() {
    let mut fs = FsModel::empty();
    fs.create(&p(&["src"]), true);
    fs.create(&p(&["src", "subdir"]), true);
    fs.create(&p(&["src", "subdir", "test.txt"]), false);

    copy(&mut fs, &p(&["src"]), &p(&["dest"]));

    assert!(fs.dir_exists_at(&p(&["dest", "subdir"])));
    assert!(fs.file_exists_at(&p(&["dest", "subdir", "test.txt"])));
}

#[test]
fn test_delete_dir() {
    let mut fs = FsModel::empty();
    fs.create(&p(&["dir"]), true);
    fs.create(&p(&["dir", "subdir"]), true);

    delete(&mut fs, &p(&["dir", "subdir"]));
    assert!(!fs.exists_at(&p(&["dir", "subdir"])));
}
