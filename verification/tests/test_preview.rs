use file_manager::fs_model::FsModel;
use file_manager::fs_utils::fetch_children;
use file_manager::paths::FsPath;
use file_manager::preview::get_file_preview;

fn p(parts: &[&str]) -> FsPath {
    FsPath::from_components(parts.iter().map(|s| s.to_string()).collect())
}

#[test]
fn short_text_shows_whole_content_with_no_scroll() {
    let content: Vec<u8> = b"one\ntwo\nthree".to_vec();
    let (text, max_scroll) = get_file_preview(&content, 0, 10);
    assert_eq!(text, "one\ntwo\nthree");
    assert_eq!(max_scroll, 0);
    // even an absurd scroll position is clamped back to the full view
    let (text, max_scroll) = get_file_preview(&content, 99, 10);
    assert_eq!(text, "one\ntwo\nthree");
    assert_eq!(max_scroll, 0);
}

#[test]
fn long_text_windows_and_reports_the_bound() {
    let content: Vec<u8> = b"a\nb\nc\nd\ne".to_vec();
    let (text, max_scroll) = get_file_preview(&content, 0, 2);
    assert_eq!(text, "a\nb");
    assert_eq!(max_scroll, 3);
    let (text, _) = get_file_preview(&content, 2, 2);
    assert_eq!(text, "c\nd");
    // past the end the window is clamped to the last page
    let (text, _) = get_file_preview(&content, 9, 2);
    assert_eq!(text, "d\ne");
}

#[test]
fn carriage_returns_are_stripped_from_line_ends() {
    let content: Vec<u8> = b"one\r\ntwo\r\n".to_vec();
    let (text, max_scroll) = get_file_preview(&content, 0, 10);
    assert_eq!(text, "one\ntwo");
    assert_eq!(max_scroll, 0);
}

#[test]
fn a_null_byte_in_the_prefix_means_binary() {
    let mut content: Vec<u8> = b"looks like text".to_vec();
    content.push(0);
    content.extend_from_slice(b"more");
    let (text, max_scroll) = get_file_preview(&content, 0, 10);
    assert_eq!(text, "Can't preview file");
    assert_eq!(max_scroll, 0);

    // a null byte beyond the probed prefix does not make it binary
    let mut long: Vec<u8> = vec![b'x'; 600];
    long[550] = 0;
    let (text, _) = get_file_preview(&long, 0, 10);
    assert_ne!(text, "Can't preview file");

    // a null byte within the probe always does, however long the file
    let mut probed: Vec<u8> = vec![b'x'; 600];
    probed[100] = 0;
    let (text, max_scroll) = get_file_preview(&probed, 0, 10);
    assert_eq!(text, "Can't preview file");
    assert_eq!(max_scroll, 0);
}

#[test]
fn pane_content_follows_the_selection_target() {
    let mut fs = FsModel::empty();
    fs.create(&p(&["d"]), true);
    fs.write_file(&p(&["d", "note.txt"]), b"hello\nworld".to_vec());

    // no target at all
    let (placeholder, max) = fetch_children(&fs, None, 0, 5);
    assert_eq!(placeholder[0].name, "Select a directory or file");
    assert_eq!(max, 0);

    // a file target is previewed
    let (preview, max) = fetch_children(&fs, Some(&p(&["d", "note.txt"])), 0, 5);
    assert_eq!(preview[0].name, "hello\nworld");
    assert_eq!(max, 0);

    // a directory target lists its entries
    let (listing, max) = fetch_children(&fs, Some(&p(&["d"])), 0, 5);
    assert_eq!(listing.len(), 1);
    assert_eq!(listing[0].name, "note.txt");
    assert_eq!(max, 0);
}
