//! File manipulation from the keyboard: the clipboard, pasting with
//! collision-avoided names, and opening the delete, rename, creation and
//! permission prompts.

use vstd::prelude::*;
use crate::fs_utils::{FileInfo, build_candidate, candidate_name, first_free_candidate, lemma_candidate_differs, lemma_candidate_injective, spec_ext, spec_stem, split_name};
use crate::paths::FsPath;
use crate::state::{Action, AppState, ListCursor, Mode, PromptMessage};

verus! {

/// Whether some entry in the pane carries this name.
pub open spec fn name_taken(files: Seq<FileInfo>, name: Seq<char>) -> bool {
    exists|i: int| 0 <= i < files.len() && files[i].name@ == name
}

/// The names the entries of the pane already carry.
pub open spec fn name_taken_pred(files: Seq<FileInfo>) -> spec_fn(Seq<char>) -> bool {
    |nm: Seq<char>| name_taken(files, nm)
}

/// Whether the cursor points at a real entry of the pane.
pub open spec fn valid_selection(sel: Option<usize>, files: Seq<FileInfo>) -> bool {
    sel matches Some(i) && (i as int) < files.len()
}

/// Tests a name against the entries of the pane.
pub fn is_name_taken(files: &Vec<FileInfo>, name: &String) -> (r: bool)
    ensures
        r == name_taken(files@, name@),
{
    let mut i: usize = 0;
    while i < files.len()
        invariant
            i <= files@.len(),
            forall|k: int| 0 <= k < i ==> files@[k].name@ != name@,
        decreases files@.len() - i,
    {
        if files[i].name == *name {
            return true;
        }
        i += 1;
    }
    false
}

/// The collision-avoiding name within one pane: a free name is kept, a
/// taken one becomes the first free `stem_1.ext`, `stem_2.ext`, …
/// (`name_1`, `name_2`, … without an extension).
pub fn unique_name_in(name: &String, files: &Vec<FileInfo>) -> (r: String)
    ensures
        !name_taken(files@, r@),
        !name_taken(files@, name@) ==> r@ == name@,
        name_taken(files@, name@) ==> r@ != name@,
        name_taken(files@, name@) ==> first_free_candidate(
            spec_stem(name@),
            spec_ext(name@),
            name_taken_pred(files@),
            r@,
        ),
{
    if !is_name_taken(files, name) {
        return name.clone();
    }
    let (stem, ext) = split_name(name);
    let ghost ext_view: Option<Seq<char>> = match ext {
        Some(ref e) => Some(e@),
        None => None,
    };
    let n = files.len();
    proof {
        let w = choose|i: int| 0 <= i < files@.len() && files@[i].name@ == name@;
        assert(n >= 1);
    }
    let mut counter: usize = 1;
    while counter <= n
        invariant
            1 <= counter <= n,
            n == files@.len(),
            name_taken(files@, name@),
            ext_view == (match ext {
                Some(ref e) => Some(e@),
                None => None,
            }),
            stem@ == spec_stem(name@),
            ext_view == spec_ext(name@),
            match ext_view {
                Some(e) => name@ =~= stem@ + seq!['.'] + e,
                None => stem@ == name@,
            },
            forall|c: nat|
                1 <= c < counter ==> name_taken(
                    files@,
                    #[trigger] candidate_name(stem@, ext_view, c),
                ),
        decreases n + 1 - counter,
    {
        let cand = build_candidate(&stem, &ext, counter);
        proof {
            assert(cand@ == candidate_name(stem@, ext_view, counter as nat));
        }
        if !is_name_taken(files, &cand) {
            proof {
                lemma_candidate_differs(stem@, ext_view, counter as nat);
                let taken = name_taken_pred(files@);
                assert(!taken(candidate_name(stem@, ext_view, counter as nat)));
                assert forall|c2: nat| 1 <= c2 < counter implies taken(
                    #[trigger] candidate_name(stem@, ext_view, c2),
                ) by {
                    assert(name_taken(files@, candidate_name(stem@, ext_view, c2)));
                }
            }
            return cand;
        }
        if counter == n {
            // The original name and every attempt up to the number of
            // entries are all taken: more distinct names than entries.
            proof {
                let g = |c: int|
                    if c == 0 {
                        choose|i: int| 0 <= i < files@.len() && files@[i].name@ == name@
                    } else {
                        choose|i: int|
                            0 <= i < files@.len() && files@[i].name@ == candidate_name(
                                stem@,
                                ext_view,
                                c as nat,
                            )
                    };
                assert forall|c: int| 0 <= c < n + 1 implies 0 <= #[trigger] g(c) < n by {
                    if c == 0 {
                        assert(name_taken(files@, name@));
                    } else {
                        assert(name_taken(files@, candidate_name(stem@, ext_view, c as nat)));
                    }
                }
                assert forall|c1: int, c2: int|
                    0 <= c1 < c2 < n + 1 implies #[trigger] g(c1) != #[trigger] g(c2) by {
                    let nm1 = if c1 == 0 {
                        name@
                    } else {
                        candidate_name(stem@, ext_view, c1 as nat)
                    };
                    let nm2 = candidate_name(stem@, ext_view, c2 as nat);
                    assert(files@[g(c1)].name@ == nm1);
                    assert(files@[g(c2)].name@ == nm2);
                    assert(nm1 != nm2) by {
                        if c1 == 0 {
                            lemma_candidate_differs(stem@, ext_view, c2 as nat);
                        } else {
                            if nm1 == nm2 {
                                lemma_candidate_injective(stem@, ext_view, c1 as nat, c2 as nat);
                            }
                        }
                    }
                }
                crate::fs_utils::lemma_pigeonhole(g, n + 1, n as int);
                assert(false);
            }
        }
        counter += 1;
    }
    // The loop can only be left with no entry at all, yet the name is
    // taken by one.
    proof {
        let w = choose|i: int| 0 <= i < files@.len() && files@[i].name@ == name@;
        assert(false);
    }
    name.clone()
}

/// Opens the file-creation prompt.
pub fn handle_create_file(app_state: &mut AppState)
    requires
        old(app_state).wf(),
        old(app_state).mode == Mode::Normal,
    ensures
        final(app_state).wf(),
        *final(app_state) == (AppState {
            mode: Mode::CreateFile,
            prompt_message: Some(PromptMessage::CreateFilePrompt),
            text_buffer: final(app_state).text_buffer,
            ..*old(app_state)
        }),
        final(app_state).text_buffer matches Some(b) && b@ == Seq::<char>::empty(),
{
    app_state.mode = Mode::CreateFile;
    app_state.prompt_message = Some(PromptMessage::CreateFilePrompt);
    app_state.text_buffer = Some(String::new());
}

/// Opens the directory-creation prompt.
pub fn handle_create_directory(app_state: &mut AppState)
    requires
        old(app_state).wf(),
        old(app_state).mode == Mode::Normal,
    ensures
        final(app_state).wf(),
        *final(app_state) == (AppState {
            mode: Mode::CreateDirectory,
            prompt_message: Some(PromptMessage::CreateDirectoryPrompt),
            text_buffer: final(app_state).text_buffer,
            ..*old(app_state)
        }),
        final(app_state).text_buffer matches Some(b) && b@ == Seq::<char>::empty(),
{
    app_state.mode = Mode::CreateDirectory;
    app_state.prompt_message = Some(PromptMessage::CreateDirectoryPrompt);
    app_state.text_buffer = Some(String::new());
}

/// Opens the permission prompt for the selected entry, or reports that
/// permissions cannot be changed where the platform has none to change.
pub fn handle_change_permissions(
    middle_state: &ListCursor,
    files: &Vec<FileInfo>,
    app_state: &mut AppState,
    permissions_supported: bool,
)
    requires
        old(app_state).wf(),
        old(app_state).mode == Mode::Normal,
    ensures
        final(app_state).wf(),
        !permissions_supported ==> *final(app_state) == (AppState {
            prompt_message: Some(PromptMessage::PermissionsUnsupported),
            ..*old(app_state)
        }),
        permissions_supported && valid_selection(middle_state.selected_index, files@) ==> *final(app_state) == (AppState {
            mode: Mode::PermissionsEdit,
            prompt_message: final(app_state).prompt_message,
            text_buffer: final(app_state).text_buffer,
            ..*old(app_state)
        }) && (final(app_state).text_buffer matches Some(b) && b@ == Seq::<char>::empty()) && (final(app_state).prompt_message matches Some(PromptMessage::PermissionsPrompt{name}) && name@ == files@[
            middle_state.selected_index->Some_0 as int
        ].name@),
        permissions_supported && !valid_selection(middle_state.selected_index, files@) ==> *final(app_state) == *old(app_state),
{
    if !permissions_supported {
        app_state.prompt_message = Some(PromptMessage::PermissionsUnsupported);
        return ;
    }
    match middle_state.selected() {
        Some(index) => {
            if index < files.len() {
                let file_name = files[index].name.clone();
                app_state.mode = Mode::PermissionsEdit;
                app_state.prompt_message = Some(
                    PromptMessage::PermissionsPrompt { name: file_name },
                );
                app_state.text_buffer = Some(String::new());
            }
        },
        None => {},
    }
}

/// Picks the selected entry up into the clipboard for a later copying
/// paste.
pub fn copy_file(
    current_dir: &FsPath,
    middle_state: &ListCursor,
    files: &Vec<FileInfo>,
    app_state: &mut AppState,
)
    ensures
        valid_selection(middle_state.selected_index, files@) ==> *final(app_state) == (AppState {
            selected_file_for_copy: final(app_state).selected_file_for_copy,
            was_cut: false,
            ..*old(app_state)
        }) && (final(app_state).selected_file_for_copy matches Some(p) && p@ == current_dir@.push(
            files@[middle_state.selected_index->Some_0 as int].name@,
        )),
        !valid_selection(middle_state.selected_index, files@) ==> *final(app_state) == *old(app_state),
{
    match middle_state.selected() {
        Some(index) => {
            if index < files.len() {
                let potential_file = current_dir.join(&files[index].name);
                app_state.selected_file_for_copy = Some(potential_file);
                app_state.was_cut = false;
            }
        },
        None => {},
    }
}

/// Picks the selected entry up into the clipboard for a later moving
/// paste.
pub fn cut_file(
    current_dir: &FsPath,
    middle_state: &ListCursor,
    files: &Vec<FileInfo>,
    app_state: &mut AppState,
)
    ensures
        valid_selection(middle_state.selected_index, files@) ==> *final(app_state) == (AppState {
            selected_file_for_copy: final(app_state).selected_file_for_copy,
            was_cut: true,
            ..*old(app_state)
        }) && (final(app_state).selected_file_for_copy matches Some(p) && p@ == current_dir@.push(
            files@[middle_state.selected_index->Some_0 as int].name@,
        )),
        !valid_selection(middle_state.selected_index, files@) ==> *final(app_state) == *old(app_state),
{
    match middle_state.selected() {
        Some(index) => {
            if index < files.len() {
                let potential_file = current_dir.join(&files[index].name);
                app_state.selected_file_for_copy = Some(potential_file);
                app_state.was_cut = true;
            }
        },
        None => {},
    }
}

/// Puts the clipboard down in the current directory. A cut source keeps
/// its literal name and is moved; a copied source goes to a
/// collision-avoided free name. The clipboard is emptied either way.
pub fn paste_file(current_dir: &FsPath, files: &Vec<FileInfo>, app_state: &mut AppState) -> (r:
    Action)
    ensures
        old(app_state).selected_file_for_copy is None ==> r is Idle && *final(app_state) == *old(app_state),
        old(app_state).selected_file_for_copy matches Some(src) ==> *final(app_state) == (AppState {
            selected_file_for_copy: None,
            was_cut: false,
            ..*old(app_state)
        }) && (if src@.len() == 0 {
            r is Idle
        } else if old(app_state).was_cut {
            r matches Action::MoveEntry{src: s2, dest} && s2@ == src@ && dest@
                == current_dir@.push(src@.last())
        } else {
            r matches Action::CopyEntry{src: s2, dest} && s2@ == src@ && dest@.len()
                == current_dir@.len() + 1 && dest@.drop_last() == current_dir@ && !name_taken(
                files@,
                dest@.last(),
            ) && (!name_taken(files@, src@.last()) ==> dest@.last() == src@.last())
        }),
{
    let src = match &app_state.selected_file_for_copy {
        Some(s) => s.clone_path(),
        None => {
            return Action::Idle;
        },
    };
    let was_cut = app_state.was_cut;
    app_state.selected_file_for_copy = None;
    app_state.was_cut = false;
    let name = match src.file_name() {
        Some(n) => n,
        None => {
            return Action::Idle;
        },
    };
    if was_cut {
        let dest = current_dir.join(&name);
        proof {
            assert(dest@.last() == src@.last());
        }
        Action::MoveEntry { src, dest }
    } else {
        let unique = unique_name_in(&name, files);
        let dest = current_dir.join(&unique);
        proof {
            assert(dest@.drop_last() =~= current_dir@);
        }
        Action::CopyEntry { src, dest }
    }
}

/// Asks for confirmation before deleting the selected entry.
pub fn handle_delete(middle_state: &ListCursor, files: &Vec<FileInfo>, app_state: &mut AppState)
    requires
        old(app_state).wf(),
        old(app_state).mode == Mode::Normal,
    ensures
        final(app_state).wf(),
        old(app_state).prompt_message is None && valid_selection(middle_state.selected_index, files@)
            ==> *final(app_state) == (AppState {
            mode: Mode::DeleteConfirm,
            prompt_message: final(app_state).prompt_message,
            ..*old(app_state)
        }) && (final(app_state).prompt_message matches Some(PromptMessage::DeleteConfirm{name})
            && name@ == files@[middle_state.selected_index->Some_0 as int].name@),
        !(old(app_state).prompt_message is None && valid_selection(
            middle_state.selected_index,
            files@,
        )) ==> *final(app_state) == *old(app_state),
{
    if app_state.prompt_message.is_none() {
        match middle_state.selected() {
            Some(index) => {
                if index < files.len() {
                    let file_name = files[index].name.clone();
                    app_state.prompt_message = Some(
                        PromptMessage::DeleteConfirm { name: file_name },
                    );
                    app_state.mode = Mode::DeleteConfirm;
                }
            },
            None => {},
        }
    }
}

/// The confirmed deletion of the selected entry.
pub fn delete_file(
    current_dir: &FsPath,
    middle_state: &ListCursor,
    files: &Vec<FileInfo>,
) -> (r: Action)
    ensures
        valid_selection(middle_state.selected_index, files@) ==> (r matches Action::DeleteEntry{
            path,
        } && path@ == current_dir@.push(
            files@[middle_state.selected_index->Some_0 as int].name@,
        )),
        !valid_selection(middle_state.selected_index, files@) ==> r is Idle,
{
    match middle_state.selected() {
        Some(index) => {
            if index < files.len() {
                let potential_file = current_dir.join(&files[index].name);
                Action::DeleteEntry { path: potential_file }
            } else {
                Action::Idle
            }
        },
        None => Action::Idle,
    }
}

/// Opens the rename prompt for the selected entry.
pub fn handle_rename(middle_state: &ListCursor, files: &Vec<FileInfo>, app_state: &mut AppState)
    requires
        old(app_state).wf(),
        old(app_state).mode == Mode::Normal,
    ensures
        final(app_state).wf(),
        valid_selection(middle_state.selected_index, files@) ==> *final(app_state) == (AppState {
            mode: Mode::Rename,
            prompt_message: final(app_state).prompt_message,
            text_buffer: final(app_state).text_buffer,
            ..*old(app_state)
        }) && (final(app_state).text_buffer matches Some(b) && b@ == Seq::<char>::empty()) && (final(app_state).prompt_message matches Some(PromptMessage::RenamePrompt{name}) && name@ == files@[
            middle_state.selected_index->Some_0 as int
        ].name@),
        !valid_selection(middle_state.selected_index, files@) ==> *final(app_state) == *old(app_state),
{
    match middle_state.selected() {
        Some(index) => {
            if index < files.len() {
                let file_name = files[index].name.clone();
                app_state.mode = Mode::Rename;
                app_state.prompt_message = Some(PromptMessage::RenamePrompt { name: file_name });
                app_state.text_buffer = Some(String::new());
            }
        },
        None => {},
    }
}

} // verus!
