use file_manager::fs_model::FsModel;
use file_manager::fs_utils::{
    copy, delete, get_permissions, is_executable, make_unique_path, move_file, paste_file,
};
use file_manager::paths::FsPath;

fn p(parts: &[&str]) -> FsPath {
    FsPath::from_components(parts.iter().map(|s| s.to_string()).collect())
}

fn sample_tree() -> FsModel {
    let mut fs = FsModel::empty();
    fs.create(&p(&["top"]), true);
    fs.create(&p(&["top", "docs"]), true);
    fs.write_file(&p(&["top", "docs", "a.txt"]), vec![1, 2, 3]);
    fs.write_file(&p(&["top", "docs", "b.bin"]), vec![0, 255, 7]);
    fs.create(&p(&["top", "docs", "inner"]), true);
    fs.write_file(&p(&["top", "docs", "inner", "c.txt"]), vec![9]);
    fs.create(&p(&["top", "other"]), true);
    fs
}

#[test]
fn copy_round_trips_file_bytes() {
    let mut fs = sample_tree();
    copy(&mut fs, &p(&["top", "docs", "a.txt"]), &p(&["top", "other", "a.txt"]));
    let src = fs.read_file(&p(&["top", "docs", "a.txt"])).unwrap();
    let dest = fs.read_file(&p(&["top", "other", "a.txt"])).unwrap();
    assert_eq!(src, dest);
    assert_eq!(dest, vec![1, 2, 3]);
}

#[test]
fn copy_round_trips_directory_subtree() {
    let mut fs = sample_tree();
    copy(&mut fs, &p(&["top", "docs"]), &p(&["top", "other", "docs"]));
    assert!(fs.exists_at(&p(&["top", "other", "docs", "inner"])));
    assert_eq!(
        fs.read_file(&p(&["top", "other", "docs", "a.txt"])).unwrap(),
        vec![1, 2, 3]
    );
    assert_eq!(
        fs.read_file(&p(&["top", "other", "docs", "inner", "c.txt"])).unwrap(),
        vec![9]
    );
    // the source is untouched
    assert_eq!(fs.read_file(&p(&["top", "docs", "a.txt"])).unwrap(), vec![1, 2, 3]);
}

#[test]
fn paste_file_copies_bytes() {
    let mut fs = sample_tree();
    paste_file(&mut fs, &p(&["top", "docs", "a.txt"]), &p(&["top", "other", "pasted.txt"]));
    assert_eq!(fs.read_file(&p(&["top", "other", "pasted.txt"])).unwrap(), vec![1, 2, 3]);
}

#[test]
fn move_keeps_content_and_clears_source() {
    let mut fs = sample_tree();
    move_file(&mut fs, &p(&["top", "docs"]), &p(&["top", "moved"]));
    assert!(!fs.exists_at(&p(&["top", "docs"])));
    assert!(!fs.exists_at(&p(&["top", "docs", "a.txt"])));
    assert!(fs.exists_at(&p(&["top", "moved"])));
    assert_eq!(fs.read_file(&p(&["top", "moved", "a.txt"])).unwrap(), vec![1, 2, 3]);
    assert_eq!(
        fs.read_file(&p(&["top", "moved", "inner", "c.txt"])).unwrap(),
        vec![9]
    );
}

#[test]
fn delete_removes_all_descendants() {
    let mut fs = sample_tree();
    delete(&mut fs, &p(&["top", "docs"]));
    assert!(!fs.exists_at(&p(&["top", "docs"])));
    assert!(!fs.exists_at(&p(&["top", "docs", "a.txt"])));
    assert!(!fs.exists_at(&p(&["top", "docs", "inner"])));
    assert!(!fs.exists_at(&p(&["top", "docs", "inner", "c.txt"])));
    assert!(fs.exists_at(&p(&["top", "other"])));
}

#[test]
fn unique_path_left_alone_when_free() {
    let fs = sample_tree();
    let free = make_unique_path(&fs, p(&["top", "docs", "new.txt"]));
    assert!(free.path_eq(&p(&["top", "docs", "new.txt"])));
}

#[test]
fn unique_path_counts_past_taken_names() {
    let mut fs = sample_tree();
    fs.write_file(&p(&["top", "docs", "a_1.txt"]), vec![]);
    let fresh = make_unique_path(&fs, p(&["top", "docs", "a.txt"]));
    assert!(fresh.path_eq(&p(&["top", "docs", "a_2.txt"])));
    assert!(!fs.exists_at(&fresh));
}

#[test]
fn unique_path_splits_at_the_last_dot() {
    let mut fs = FsModel::empty();
    fs.create(&p(&["archive.tar.gz"]), false);
    let fresh = make_unique_path(&fs, p(&["archive.tar.gz"]));
    assert!(fresh.path_eq(&p(&["archive.tar_1.gz"])));
}

#[test]
fn unique_path_treats_a_leading_dot_as_no_extension() {
    let mut fs = FsModel::empty();
    fs.create(&p(&[".bashrc"]), false);
    let fresh = make_unique_path(&fs, p(&[".bashrc"]));
    assert!(fresh.path_eq(&p(&[".bashrc_1"])));
}

#[test]
fn unique_path_without_extension() {
    let mut fs = FsModel::empty();
    fs.create(&p(&["notes"]), false);
    let fresh = make_unique_path(&fs, p(&["notes"]));
    assert!(fresh.path_eq(&p(&["notes_1"])));
}

#[test]
fn permission_string_shows_each_bit() {
    assert_eq!(get_permissions(0o754), "rwxr-xr--");
    assert_eq!(get_permissions(0o000), "---------");
    assert_eq!(get_permissions(0o777), "rwxrwxrwx");
    assert_eq!(get_permissions(0o640), "rw-r-----");
}

#[test]
fn executability_follows_execute_bits() {
    assert!(is_executable(0o100));
    assert!(is_executable(0o010));
    assert!(is_executable(0o001));
    assert!(is_executable(0o755));
    assert!(!is_executable(0o644));
    assert!(!is_executable(0o000));
}

#[test]
fn set_perm_bits_changes_only_the_target() {
    let mut fs = sample_tree();
    fs.set_perm_bits(&p(&["top", "docs", "a.txt"]), 0o600);
    let listing = file_manager::fs_utils::get_files_and_dirs(&fs, &p(&["top", "docs"]));
    let a = listing.iter().find(|e| e.name == "a.txt").unwrap();
    assert_eq!(a.perms, Some(0o600));
    let b = listing.iter().find(|e| e.name == "b.bin").unwrap();
    assert_ne!(b.perms, Some(0o600));
}

#[test]
fn parent_view_is_empty_only_at_root() {
    let fs = sample_tree();
    let at_root = file_manager::fs_utils::get_parent_content(&fs, &FsPath::root());
    assert_eq!(at_root.len(), 0);
    let below = file_manager::fs_utils::get_parent_content(&fs, &p(&["top", "docs"]));
    assert!(below.len() > 0);
    assert!(below.iter().any(|e| e.name == "docs"));
    assert!(below.iter().any(|e| e.name == "other"));
}
