//! The modal key handlers: one for normal mode's key table, and one for
//! each prompt mode's editing loop.

use vstd::prelude::*;
use crate::fs_utils::FileInfo;
use crate::paths::FsPath;
use crate::input_handlers::file_manipulation::{copy_file, cut_file, delete_file, handle_change_permissions, handle_create_directory, handle_create_file, handle_delete, handle_rename, name_taken, paste_file, valid_selection};
use crate::input_handlers::file_navigation::{go_to_bottom, go_to_top, handle_quit, handle_search, move_down, move_down_half, move_in, move_out, move_up, move_up_half, next_search, previous_search, search_files, spec_search};
use crate::state::{Action, AppState, Key, KeyModifier, ListCursor, Mode, PromptMessage};

verus! {

const MOVE_DOWN: char = 'j';

const MOVE_UP: char = 'k';

const MOVE_IN: char = 'l';

const MOVE_OUT: char = 'h';

const QUIT: char = 'q';

const GO_TO_TOP: char = 'g';

const GO_TO_BOTTOM: char = 'G';

const COPY: char = 'y';

const PASTE: char = 'p';

const DELETE: char = 'D';

const CUT: char = 'x';

const MOVE_UP_HALF_PAGE: char = 'u';

const MOVE_DOWN_HALF_PAGE: char = 'd';

const YES: char = 'y';

const NO: char = 'n';

const RENAME: char = 'r';

const SEARCH: char = '/';

const NEXT: char = 'n';

const PREVIOUS: char = 'N';

const CREATE_FILE: char = 'a';

const CREATE_DIR: char = 'A';

const CHANGE_PERMISSIONS: char = 'c';

/// Whether normal mode binds this key at all.
pub open spec fn normal_mode_key(key: Key) -> bool {
    key matches Key::Char(c) && (c == 'j' || c == 'k' || c == 'l' || c == 'h' || c == 'q' || c
        == 'g' || c == 'G' || c == 'y' || c == 'p' || c == 'D' || c == 'x' || c == 'u' || c == 'd'
        || c == 'r' || c == '/' || c == 'n' || c == 'N' || c == 'a' || c == 'A' || c == 'c')
}

/// What one key does in normal mode, as a relation between the state
/// before and after: the whole key table, with the status line cleared
/// first and the chord disarmed by any key but its own.
pub open spec fn normal_mode_step(
    key: Key,
    files: Seq<FileInfo>,
    permissions_supported: bool,
    max_scroll: usize,
    pre_dir: Seq<Seq<char>>,
    post_dir: Seq<Seq<char>>,
    pre_mid: ListCursor,
    post_mid: ListCursor,
    pre_left: ListCursor,
    post_left: ListCursor,
    pre_scroll: usize,
    post_scroll: usize,
    pre: AppState,
    post: AppState,
    r: Action,
) -> bool {
    &&& (post.mode == Mode::Search) <==> key == Key::Char('/')
    &&& (post.mode == Mode::Rename) <==> (key == Key::Char('r') && valid_selection(
            pre_mid.selected_index,
            files,
        ))
    &&& (post.mode == Mode::CreateFile) <==> key == Key::Char('a')
    &&& (post.mode == Mode::CreateDirectory) <==> key == Key::Char('A')
    &&& (post.mode == Mode::DeleteConfirm) <==> (key == Key::Char('D')
            && valid_selection(pre_mid.selected_index, files))
    &&& (post.mode == Mode::PermissionsEdit) <==> (key == Key::Char('c')
            && permissions_supported && valid_selection(pre_mid.selected_index, files))
    &&& (r is Quit) <==> key == Key::Char('q')
    &&& // any key but the chord's own disarms a pending chord
        key != Key::Char('g') ==> post.last_key_pressed is None
    &&& // a key outside the table does nothing but clear the status line
        // and disarm chord and modifier
        !normal_mode_key(key) ==> post == (AppState {
            prompt_message: None,
            last_key_pressed: None,
            last_modifier: None,
            ..pre
        }) && post_mid == pre_mid && post_left == pre_left
            && post_scroll == pre_scroll && r is Idle
    &&& // the status line is cleared first: a failure prompt survives
        // exactly one key press; only the prompt-opening keys leave a
        // new message behind
        key != Key::Char('a') && key != Key::Char('A') && key != Key::Char('r') && key
            != Key::Char('c') && key != Key::Char('D') && key != Key::Char('/') ==> post.prompt_message is None
    &&& key == Key::Char('a') ==> post.prompt_message == Some(
            PromptMessage::CreateFilePrompt,
        )
    &&& key == Key::Char('A') ==> post.prompt_message == Some(
            PromptMessage::CreateDirectoryPrompt,
        )
    &&& key == Key::Char('/') ==> (post.prompt_message matches Some(
            PromptMessage::SearchInput { pattern },
        ) && pattern@ == Seq::<char>::empty())
    &&& key == Key::Char('r') ==> (if valid_selection(pre_mid.selected_index, files) {
            post.prompt_message matches Some(PromptMessage::RenamePrompt { name })
                && name@ == files[pre_mid.selected_index->Some_0 as int].name@
        } else {
            post.prompt_message is None
        })
    &&& key == Key::Char('D') ==> (if valid_selection(pre_mid.selected_index, files) {
            post.prompt_message matches Some(PromptMessage::DeleteConfirm { name })
                && name@ == files[pre_mid.selected_index->Some_0 as int].name@
        } else {
            post.prompt_message is None
        })
    &&& key == Key::Char('c') ==> (if !permissions_supported {
            post.prompt_message == Some(PromptMessage::PermissionsUnsupported)
        } else if valid_selection(pre_mid.selected_index, files) {
            post.prompt_message matches Some(
                PromptMessage::PermissionsPrompt { name },
            ) && name@ == files[pre_mid.selected_index->Some_0 as int].name@
        } else {
            post.prompt_message is None
        })
    &&& // the current directory moves only by stepping in or out
        key != Key::Char('l') && key != Key::Char('h') ==> post_dir == pre_dir
    &&& // stepping out: to the parent with the cursor on top; at the
        // root only the left pane's cursor clears
        key == Key::Char('h') ==> (pre_dir.len() > 0 ==> post_dir == pre_dir.drop_last() && post_mid.selected_index == Some(0usize)) && (pre_dir.len() == 0 ==> post_dir == pre_dir && post_left.selected_index is None)
    &&& // stepping in: a selected directory becomes current; a selected
        // file goes to the editor
        key == Key::Char('l') && valid_selection(pre_mid.selected_index, files) ==> ({
            let i = pre_mid.selected_index->Some_0 as int;
            let target = pre_dir.push(files[i].name@);
            if files[i].is_dir {
                post_dir == target && post_mid.selected_index == Some(0usize)
            } else {
                post_dir == pre_dir && (r matches Action::OpenEditor{path}
                    && path@ == target)
            }
        })
    &&& // single-row movement with the plain modifier
        key == Key::Char('j') && pre.last_modifier == Some(KeyModifier::Plain) ==> (
        files.len() == 0 ==> post_mid.selected_index is None) && (files.len() > 0
            ==> post_mid.selected_index == Some(
            crate::input_handlers::file_navigation::spec_adjusted(
                pre_mid.selected_index,
                files.len() as usize,
                true,
            ),
        ))
    &&& key == Key::Char('k') && pre.last_modifier == Some(KeyModifier::Plain) ==> (
        files.len() == 0 ==> post_mid.selected_index is None) && (files.len() > 0
            ==> post_mid.selected_index == Some(
            crate::input_handlers::file_navigation::spec_adjusted(
                pre_mid.selected_index,
                files.len() as usize,
                false,
            ),
        ))
    &&& // preview scrolling with the alternate modifier; clamped
        key == Key::Char('j') && pre.last_modifier == Some(KeyModifier::Alt) ==> post_scroll == (if pre_scroll < max_scroll {
            pre_scroll + 1
        } else {
            pre_scroll as int
        })
    &&& key == Key::Char('k') && pre.last_modifier == Some(KeyModifier::Alt) ==> post_scroll == (if pre_scroll > 0 {
            (pre_scroll - 1) as usize
        } else {
            0usize
        })
    &&& // half-page jumps: with control the selection; with the
        // alternate modifier the preview scroll; both clamped
        key == Key::Char('d') || key == Key::Char('u') ==> ({
            let down = key == Key::Char('d');
            let half = pre.terminal_height / 2;
            &&& pre.last_modifier == Some(KeyModifier::Control) ==> post_scroll == pre_scroll && post_mid.selected_index
                == crate::input_handlers::file_navigation::spec_stepped(
                pre_mid.selected_index,
                files.len() as usize,
                half,
                down,
            ) && post.last_modifier == Some(KeyModifier::Plain)
            &&& pre.last_modifier == Some(KeyModifier::Alt) ==> post_mid
                == pre_mid && post_scroll == (if down {
                if pre_scroll + half <= max_scroll {
                    pre_scroll + half
                } else {
                    max_scroll as int
                }
            } else {
                if pre_scroll >= half {
                    pre_scroll - half
                } else {
                    0
                }
            })
            &&& pre.last_modifier != Some(KeyModifier::Control) && pre.last_modifier != Some(KeyModifier::Alt) ==> post_mid == pre_mid && post_scroll == pre_scroll
        })
    &&& // search next and previous resume from the cursor using the
        // retained pattern
        key == Key::Char('n') || key == Key::Char('N') ==> ({
            let fwd = key == Key::Char('n');
            let sel: int = match pre_mid.selected_index {
                Some(i) => i as int,
                None => 0,
            };
            let start: int = if fwd {
                if sel < files.len() {
                    sel + 1
                } else {
                    files.len() as int
                }
            } else {
                sel
            };
            match pre.search_pattern {
                Some(pat) => {
                    let found = spec_search(pat@, files, start, !fwd);
                    &&& (found matches Some(i) ==> post.last_search_index == Some(
                        i as usize,
                    ) && post_mid.selected_index == Some(i as usize))
                    &&& (found is None ==> post.last_search_index is None && post_mid == pre_mid)
                },
                None => post.last_search_index == pre.last_search_index
                    && post_mid == pre_mid,
            }
        })
    &&& // the jumps
        key == Key::Char('G') ==> (if pre.last_modifier == Some(KeyModifier::Shift) {
            post_scroll == pre_scroll && (files.len() > 0 ==> post_mid.selected_index == Some((files.len() - 1) as usize)) && (files.len() == 0 ==> post_mid == pre_mid)
        } else {
            post_scroll == max_scroll && post_mid == pre_mid
        })
    &&& key == Key::Char('g') && pre.last_key_pressed == Some('g') ==> post.last_key_pressed is None && (if pre.last_modifier == Some(KeyModifier::Plain) {
            post_mid.selected_index == Some(0usize) && post_scroll == pre_scroll
        } else {
            post_mid == pre_mid && post_scroll == 0
        })
    &&& key == Key::Char('g') && pre.last_key_pressed != Some('g') ==> post.last_key_pressed == Some('g') && post_mid == pre_mid
    &&& // the clipboard is filled by copy and cut
        (key == Key::Char('y') || key == Key::Char('x')) && valid_selection(
            pre_mid.selected_index,
            files,
        ) ==> (post.selected_file_for_copy matches Some(src) && src@ == pre_dir.push(files[pre_mid.selected_index->Some_0 as int].name@)) && post.was_cut == (key == Key::Char('x'))
    &&& // paste consumes the clipboard: a cut source is moved under its
        // own name; a copied one under a collision-avoided free name
        key == Key::Char('p') ==> (pre.selected_file_for_copy matches Some(src)
            ==> post.selected_file_for_copy is None && (src@.len() > 0 ==> (if pre.was_cut {
            r matches Action::MoveEntry{src: s2, dest} && s2@ == src@ && dest@ == pre_dir.push(src@.last())
        } else {
            r matches Action::CopyEntry{src: s2, dest} && s2@ == src@ && dest@.drop_last() == pre_dir && !crate::input_handlers::file_manipulation::name_taken(files, dest@.last())
        })))
}

/// Normal mode: the key table. Clears the status line first, disarms a
/// pending chord on any key but the chord's own, and dispatches. The
/// answer is `Quit` exactly on the quit key, and a prompt mode is
/// entered exactly on its key (the selection-bound ones only with a
/// valid selection, the permission prompt only where the platform can
/// change permissions).
pub fn handle_normal_mode(
    key: Key,
    modifiers: KeyModifier,
    current_dir: &mut FsPath,
    middle_state: &mut ListCursor,
    left_state: &mut ListCursor,
    files: &Vec<FileInfo>,
    scroll_position: &mut usize,
    max_scroll: &usize,
    app_state: &mut AppState,
    permissions_supported: bool,
) -> (r: Action)
    requires
        old(app_state).wf(),
        old(app_state).mode == Mode::Normal,
    ensures
        final(app_state).wf(),
        normal_mode_step(
            key,
            files@,
            permissions_supported,
            *max_scroll,
            old(current_dir)@,
            final(current_dir)@,
            *old(middle_state),
            *final(middle_state),
            *old(left_state),
            *final(left_state),
            *old(scroll_position),
            *final(scroll_position),
            *old(app_state),
            *final(app_state),
            r,
        ),
{
    app_state.prompt_message = None;
    let is_chord_key = (key == Key::Char(GO_TO_TOP));
    if !is_chord_key {
        app_state.last_key_pressed = None;
    }
    match key {
        Key::Char(c) => {
            if c == MOVE_IN {
                move_in(current_dir, middle_state, files, app_state)
            } else if c == MOVE_OUT {
                move_out(current_dir, middle_state, left_state);
                Action::Idle
            } else if c == MOVE_UP {
                move_up(middle_state, files.len(), scroll_position, app_state);
                Action::Idle
            } else if c == MOVE_DOWN {
                move_down(middle_state, files.len(), scroll_position, max_scroll, app_state);
                Action::Idle
            } else if c == MOVE_DOWN_HALF_PAGE {
                move_down_half(middle_state, files.len(), scroll_position, max_scroll, app_state);
                Action::Idle
            } else if c == MOVE_UP_HALF_PAGE {
                move_up_half(middle_state, files.len(), scroll_position, app_state);
                Action::Idle
            } else if c == CREATE_FILE {
                handle_create_file(app_state);
                Action::Idle
            } else if c == CREATE_DIR {
                handle_create_directory(app_state);
                Action::Idle
            } else if c == COPY {
                copy_file(current_dir, middle_state, files, app_state);
                Action::Idle
            } else if c == CUT {
                cut_file(current_dir, middle_state, files, app_state);
                Action::Idle
            } else if c == PASTE {
                paste_file(current_dir, files, app_state)
            } else if c == DELETE {
                handle_delete(middle_state, files, app_state);
                Action::Idle
            } else if c == RENAME {
                handle_rename(middle_state, files, app_state);
                Action::Idle
            } else if c == CHANGE_PERMISSIONS {
                handle_change_permissions(middle_state, files, app_state, permissions_supported);
                Action::Idle
            } else if c == GO_TO_TOP {
                go_to_top(middle_state, app_state, scroll_position);
                Action::Idle
            } else if c == GO_TO_BOTTOM {
                go_to_bottom(middle_state, app_state, files.len(), scroll_position, max_scroll);
                Action::Idle
            } else if c == SEARCH {
                handle_search(app_state);
                Action::Idle
            } else if c == NEXT {
                next_search(middle_state, files, app_state);
                Action::Idle
            } else if c == PREVIOUS {
                previous_search(middle_state, files, app_state);
                Action::Idle
            } else if c == QUIT {
                if handle_quit() {
                    Action::Quit
                } else {
                    Action::Idle
                }
            } else {
                app_state.last_modifier = None;
                Action::Idle
            }
        },
        _ => {
            app_state.last_modifier = None;
            Action::Idle
        },
    }
}

/// What one key does in a creation prompt, as a relation between the
/// state before and after: printable keys except the path separator grow
/// the name, backspace shrinks it, Enter leaves the mode either way — a
/// free non-empty name asks for the creation, a taken or empty one only
/// reports the collision — and Escape discards everything.
pub open spec fn creation_step(
    key: Key,
    dir: Seq<Seq<char>>,
    files: Seq<FileInfo>,
    pre: AppState,
    post: AppState,
    r: Action,
) -> bool {
    &&& post.mode == pre.mode || post.mode == Mode::Normal
    &&& key == Key::Enter || key == Key::Esc ==> post.mode == Mode::Normal && post.text_buffer is None
    &&& key == Key::Enter ==> ({
        let name = pre.text_buffer->Some_0;
        if name@.len() == 0 || name_taken(files, name@) {
            r is Idle && post.prompt_message == Some(PromptMessage::CreateNameExists)
        } else if pre.mode == Mode::CreateFile {
            (r matches Action::CreateFileAt{path} && path@ == dir.push(name@))
                && post.prompt_message == pre.prompt_message
        } else {
            (r matches Action::CreateDirectoryAt{path} && path@ == dir.push(name@))
                && post.prompt_message == pre.prompt_message
        }
    })
    &&& key == Key::Esc ==> r is Idle && post.prompt_message is None
    &&& key matches Key::Char(c) ==> r is Idle && (if c != '/' {
        post == (AppState { text_buffer: post.text_buffer, ..pre }) && (post.text_buffer
            matches Some(b) && b@ == pre.text_buffer->Some_0@.push(c))
    } else {
        post == pre
    })
    &&& key == Key::Backspace ==> r is Idle && post == (AppState {
        text_buffer: post.text_buffer,
        ..pre
    }) && (post.text_buffer matches Some(b) && b@ == (if pre.text_buffer->Some_0@.len() > 0 {
        pre.text_buffer->Some_0@.drop_last()
    } else {
        pre.text_buffer->Some_0@
    }))
    &&& key == Key::OtherKey ==> r is Idle && post == pre
}

/// A creation prompt: printable keys except the path separator grow the
/// name, backspace shrinks it. Enter leaves the mode either way: a free
/// non-empty name asks for the file or directory to be created, a taken
/// or empty one only reports the collision. Escape discards everything.
pub fn handle_creation_mode(
    key: Key,
    current_dir: &FsPath,
    files: &Vec<FileInfo>,
    app_state: &mut AppState,
) -> (r: Action)
    requires
        old(app_state).wf(),
        old(app_state).mode == Mode::CreateFile || old(app_state).mode == Mode::CreateDirectory,
    ensures
        final(app_state).wf(),
        creation_step(key, current_dir@, files@, *old(app_state), *final(app_state), r),
{
    match key {
        Key::Char(c) => {
            if c != '/' {
                match &mut app_state.text_buffer {
                    Some(buffer) => {
                        buffer.push(c);
                    },
                    None => {
                        proof {
                            assert(false);
                        }
                    },
                }
            }
            Action::Idle
        },
        Key::Backspace => {
            match &mut app_state.text_buffer {
                Some(buffer) => {
                    let _ = buffer.pop();
                },
                None => {
                    proof {
                        assert(false);
                    }
                },
            }
            Action::Idle
        },
        Key::Enter => {
            let name = match &app_state.text_buffer {
                Some(b) => b.clone(),
                None => {
                    proof {
                        assert(false);
                    }
                    String::new()
                },
            };
            let creating_file = app_state.mode == Mode::CreateFile;
            app_state.mode = Mode::Normal;
            app_state.text_buffer = None;
            if name.as_str().unicode_len() == 0 || crate::input_handlers::file_manipulation::is_name_taken(
                files,
                &name,
            ) {
                app_state.prompt_message = Some(PromptMessage::CreateNameExists);
                Action::Idle
            } else {
                let new_path = current_dir.join(&name);
                if creating_file {
                    Action::CreateFileAt { path: new_path }
                } else {
                    Action::CreateDirectoryAt { path: new_path }
                }
            }
        },
        Key::Esc => {
            app_state.mode = Mode::Normal;
            app_state.prompt_message = None;
            app_state.text_buffer = None;
            Action::Idle
        },
        Key::OtherKey => Action::Idle,
    }
}

/// What one key does in the search prompt, as a relation between the
/// state before and after: keys grow and shrink the pattern and the
/// status line mirrors it; Enter runs the search from the top and puts
/// the cursor on the find, if any; Escape discards the pattern; both
/// return to normal mode.
pub open spec fn search_mode_step(
    key: Key,
    files: Seq<FileInfo>,
    pre_mid: ListCursor,
    post_mid: ListCursor,
    pre: AppState,
    post: AppState,
    r: Action,
) -> bool {
    &&& r is Idle
    &&& post.mode == Mode::Search || post.mode == Mode::Normal
    &&& key == Key::Enter || key == Key::Esc ==> post.mode == Mode::Normal
    &&& key == Key::Enter ==> ({
        match pre.search_pattern {
            Some(p) => {
                let found = spec_search(p@, files, 0, false);
                &&& post.search_pattern == pre.search_pattern
                &&& (found matches Some(i) ==> post.last_search_index == Some(i as usize)
                    && post_mid.selected_index == Some(i as usize))
                &&& (found is None ==> post.last_search_index is None && post_mid == pre_mid)
            },
            None => {
                &&& post.last_search_index == pre.last_search_index
                &&& (pre.last_search_index matches Some(i) ==> post_mid.selected_index == Some(i))
                &&& (pre.last_search_index is None ==> post_mid == pre_mid)
            },
        }
    })
    &&& key == Key::Esc ==> post.search_pattern is None && post.prompt_message is None && post_mid
        == pre_mid
    &&& key matches Key::Char(c) ==> post.mode == Mode::Search && (post.search_pattern
        matches Some(p) && p@ == (match pre.search_pattern {
        Some(q) => q@.push(c),
        None => seq![c],
    })) && post_mid == pre_mid
    &&& key == Key::Backspace ==> post.mode == Mode::Search && post_mid == pre_mid && (
    match pre.search_pattern {
        Some(q) => post.search_pattern matches Some(p) && p@ == (if q@.len() > 0 {
            q@.drop_last()
        } else {
            q@
        }),
        None => post.search_pattern is None,
    })
    &&& post.search_pattern matches Some(p) ==> post.prompt_message matches Some(
        PromptMessage::SearchInput { pattern },
    ) && pattern@ == p@
    &&& key != Key::Esc && post.search_pattern is None ==> post.prompt_message is None
}

/// The search prompt: keys grow and shrink the pattern, and the status
/// line mirrors it. Enter runs the search from the top and puts the
/// cursor on the find, if any; Escape discards the pattern. Both return
/// to normal mode.
pub fn handle_search_mode(
    key: Key,
    middle_state: &mut ListCursor,
    files: &Vec<FileInfo>,
    app_state: &mut AppState,
) -> (r: Action)
    requires
        old(app_state).wf(),
        old(app_state).mode == Mode::Search,
    ensures
        final(app_state).wf(),
        search_mode_step(
            key,
            files@,
            *old(middle_state),
            *final(middle_state),
            *old(app_state),
            *final(app_state),
            r,
        ),
{
    match key {
        Key::Char(c) => {
            match &mut app_state.search_pattern {
                Some(pattern) => {
                    pattern.push(c);
                },
                None => {
                    let mut p = String::new();
                    p.push(c);
                    app_state.search_pattern = Some(p);
                },
            }
        },
        Key::Backspace => {
            match &mut app_state.search_pattern {
                Some(pattern) => {
                    let _ = pattern.pop();
                },
                None => {},
            }
        },
        Key::Enter => {
            match &app_state.search_pattern {
                Some(pattern) => {
                    let p = pattern.clone();
                    app_state.last_search_index = search_files(p.as_str(), files, 0, false);
                },
                None => {},
            }
            match app_state.last_search_index {
                Some(index) => {
                    middle_state.select(Some(index));
                },
                None => {},
            }
            app_state.mode = Mode::Normal;
        },
        Key::Esc => {
            app_state.mode = Mode::Normal;
            app_state.search_pattern = None;
        },
        Key::OtherKey => {},
    }
    match &app_state.search_pattern {
        Some(pattern) => {
            app_state.prompt_message = Some(
                PromptMessage::SearchInput { pattern: pattern.clone() },
            );
        },
        None => {
            app_state.prompt_message = None;
        },
    }
    Action::Idle
}

/// What one key does in the delete confirmation, as a relation between
/// the state before and after: the yes key asks for the deletion and the
/// no key aborts it, both clearing the prompt and returning to normal
/// mode; every other key is ignored. The directory and the cursor never
/// move.
pub open spec fn delete_mode_step(
    key: Key,
    dir: Seq<Seq<char>>,
    mid: ListCursor,
    files: Seq<FileInfo>,
    pre: AppState,
    post: AppState,
    r: Action,
) -> bool {
    &&& key == Key::Char('y') ==> post == (AppState {
        mode: Mode::Normal,
        prompt_message: None,
        ..pre
    }) && (valid_selection(mid.selected_index, files) ==> (r matches Action::DeleteEntry{path}
        && path@ == dir.push(files[mid.selected_index->Some_0 as int].name@))) && (
    !valid_selection(mid.selected_index, files) ==> r is Idle)
    &&& key == Key::Char('n') ==> post == (AppState {
        mode: Mode::Normal,
        prompt_message: None,
        ..pre
    }) && r is Idle
    &&& key != Key::Char('y') && key != Key::Char('n') ==> post == pre && r is Idle
}

/// The delete confirmation: the yes key asks for the deletion and the no
/// key aborts it, both clearing the prompt and returning to normal mode;
/// every other key is ignored.
pub fn handle_delete_mode(
    key: Key,
    current_dir: &mut FsPath,
    middle_state: &mut ListCursor,
    files: &Vec<FileInfo>,
    app_state: &mut AppState,
) -> (r: Action)
    requires
        old(app_state).wf(),
        old(app_state).mode == Mode::DeleteConfirm,
    ensures
        final(app_state).wf(),
        final(current_dir)@ == old(current_dir)@,
        *final(middle_state) == *old(middle_state),
        delete_mode_step(
            key,
            old(current_dir)@,
            *old(middle_state),
            files@,
            *old(app_state),
            *final(app_state),
            r,
        ),
{
    match key {
        Key::Char(c) => {
            if c == YES {
                let action = delete_file(current_dir, middle_state, files);
                app_state.prompt_message = None;
                app_state.mode = Mode::Normal;
                action
            } else if c == NO {
                app_state.prompt_message = None;
                app_state.mode = Mode::Normal;
                Action::Idle
            } else {
                Action::Idle
            }
        },
        _ => Action::Idle,
    }
}

/// What one key does in the rename prompt, as a relation between the
/// state before and after: keys except the path separator grow the new
/// name, backspace shrinks it; Enter, with something selected, leaves
/// the mode and either asks for the rename or — on a taken or empty
/// name — only reports the collision; Escape discards everything.
pub open spec fn rename_mode_step(
    key: Key,
    dir: Seq<Seq<char>>,
    mid: ListCursor,
    files: Seq<FileInfo>,
    pre: AppState,
    post: AppState,
    r: Action,
) -> bool {
    &&& post.mode == Mode::Rename || post.mode == Mode::Normal
    &&& key == Key::Esc ==> post.mode == Mode::Normal && post.text_buffer is None
        && post.prompt_message is None && r is Idle
    &&& key == Key::Enter && valid_selection(mid.selected_index, files) ==> ({
        let name = pre.text_buffer->Some_0;
        let own = files[mid.selected_index->Some_0 as int].name@;
        &&& post.mode == Mode::Normal
        &&& post.text_buffer is None
        &&& (if name@.len() == 0 || name_taken(files, name@) {
            r is Idle && post.prompt_message == Some(PromptMessage::NameExists)
        } else {
            (r matches Action::RenameEntry{src, dest} && src@ == dir.push(own) && dest@
                == dir.push(name@)) && post.prompt_message == pre.prompt_message
        })
    })
    &&& key == Key::Enter && !valid_selection(mid.selected_index, files) ==> post == pre
        && r is Idle
    &&& key matches Key::Char(c) ==> r is Idle && (if c != '/' {
        post == (AppState { text_buffer: post.text_buffer, ..pre }) && (post.text_buffer
            matches Some(b) && b@ == pre.text_buffer->Some_0@.push(c))
    } else {
        post == pre
    })
    &&& key == Key::Backspace ==> r is Idle && post == (AppState {
        text_buffer: post.text_buffer,
        ..pre
    }) && (post.text_buffer matches Some(b) && b@ == (if pre.text_buffer->Some_0@.len() > 0 {
        pre.text_buffer->Some_0@.drop_last()
    } else {
        pre.text_buffer->Some_0@
    }))
    &&& key == Key::OtherKey ==> r is Idle && post == pre
}

/// The rename prompt: keys except the path separator grow the new name,
/// backspace shrinks it. Enter, with something selected, leaves the mode
/// and either asks for the rename or — where the name is already taken
/// or empty — only reports the collision; without a selection nothing
/// happens. Escape discards everything.
pub fn handle_renaming_mode(
    key: Key,
    current_dir: &FsPath,
    middle_state: &ListCursor,
    files: &Vec<FileInfo>,
    app_state: &mut AppState,
) -> (r: Action)
    requires
        old(app_state).wf(),
        old(app_state).mode == Mode::Rename,
    ensures
        final(app_state).wf(),
        rename_mode_step(
            key,
            current_dir@,
            *middle_state,
            files@,
            *old(app_state),
            *final(app_state),
            r,
        ),
{
    match key {
        Key::Char(c) => {
            if c != '/' {
                match &mut app_state.text_buffer {
                    Some(buffer) => {
                        buffer.push(c);
                    },
                    None => {
                        proof {
                            assert(false);
                        }
                    },
                }
            }
            Action::Idle
        },
        Key::Backspace => {
            match &mut app_state.text_buffer {
                Some(buffer) => {
                    let _ = buffer.pop();
                },
                None => {
                    proof {
                        assert(false);
                    }
                },
            }
            Action::Idle
        },
        Key::Enter => {
            match middle_state.selected() {
                Some(index) => {
                    if index < files.len() {
                        let new_name = match &app_state.text_buffer {
                            Some(b) => b.clone(),
                            None => {
                                proof {
                                    assert(false);
                                }
                                String::new()
                            },
                        };
                        app_state.mode = Mode::Normal;
                        app_state.text_buffer = None;
                        if new_name.as_str().unicode_len() == 0
                            || crate::input_handlers::file_manipulation::is_name_taken(
                            files,
                            &new_name,
                        ) {
                            app_state.prompt_message = Some(PromptMessage::NameExists);
                            Action::Idle
                        } else {
                            let file_path = current_dir.join(&files[index].name);
                            let new_file_path = current_dir.join(&new_name);
                            Action::RenameEntry { src: file_path, dest: new_file_path }
                        }
                    } else {
                        Action::Idle
                    }
                },
                None => Action::Idle,
            }
        },
        Key::Esc => {
            app_state.mode = Mode::Normal;
            app_state.prompt_message = None;
            app_state.text_buffer = None;
            Action::Idle
        },
        Key::OtherKey => Action::Idle,
    }
}

/// Whether a character is an octal digit.
pub open spec fn is_octal_digit(c: char) -> bool {
    '0' <= c && c <= '7'
}

/// The number a sequence of octal digits denotes.
pub open spec fn octal_value(s: Seq<char>) -> nat
    decreases s.len(),
{
    if s.len() == 0 {
        0
    } else {
        octal_value(s.drop_last()) * 8 + (if s.last() as u32 >= 48 {
            (s.last() as u32 - 48) as nat
        } else {
            0
        })
    }
}

/// Parses a short all-octal digit string; anything else — the empty
/// string included — is rejected without touching anything.
pub fn parse_octal(s: &String) -> (r: Option<u32>)
    requires
        s@.len() <= 3,
    ensures
        r is Some <==> (s@.len() >= 1 && forall|i: int| 0 <= i < s@.len() ==> is_octal_digit(
            s@[i],
        )),
        r matches Some(v) ==> v == octal_value(s@),
{
    let st = s.as_str();
    let len = st.unicode_len();
    if len == 0 {
        return None;
    }
    let mut value: u32 = 0;
    let mut i: usize = 0;
    while i < len
        invariant
            i <= len,
            len == s@.len() <= 3,
            st@ == s@,
            forall|k: int| 0 <= k < i ==> is_octal_digit(s@[k]),
            value == octal_value(s@.take(i as int)),
            value <= 0o777,
            i == 0 ==> value == 0,
            i == 1 ==> value <= 7,
            i == 2 ==> value <= 0o77,
        decreases len - i,
    {
        let c = st.get_char(i);
        if !('0' <= c && c <= '7') {
            return None;
        }
        let d: u32 = (c as u32) - 48;
        proof {
            assert(d <= 7);
        }
        value = value * 8 + d;
        proof {
            assert(s@.take(i + 1).drop_last() =~= s@.take(i as int));
            assert(s@.take(i + 1).last() == s@[i as int]);
        }
        i += 1;
    }
    proof {
        assert(s@.take(len as int) =~= s@);
    }
    Some(value)
}

/// What one key does in the permission prompt, as a relation between
/// the state before and after: digit keys grow the three-digit mode
/// string, backspace shrinks it; Enter, with something selected, leaves
/// the mode and either asks for the permission change or — on digits
/// that are no octal mode — only reports the invalid value; Escape
/// discards everything.
pub open spec fn permissions_mode_step(
    key: Key,
    dir: Seq<Seq<char>>,
    mid: ListCursor,
    files: Seq<FileInfo>,
    pre: AppState,
    post: AppState,
    r: Action,
) -> bool {
    &&& post.mode == Mode::PermissionsEdit || post.mode == Mode::Normal
    &&& key == Key::Esc ==> post.mode == Mode::Normal && post.text_buffer is None
        && post.prompt_message is None && r is Idle
    &&& key == Key::Enter && valid_selection(mid.selected_index, files) ==> ({
        let digits = pre.text_buffer->Some_0;
        let own = files[mid.selected_index->Some_0 as int].name@;
        &&& post.mode == Mode::Normal
        &&& post.text_buffer is None
        &&& (if digits@.len() >= 1 && (forall|i: int|
            0 <= i < digits@.len() ==> is_octal_digit(digits@[i])) {
            (r matches Action::SetPermissionsAt{path, mode_bits} && path@ == dir.push(own)
                && mode_bits == octal_value(digits@)) && post.prompt_message
                == pre.prompt_message
        } else {
            r is Idle && post.prompt_message == Some(PromptMessage::InvalidPermissions)
        })
    })
    &&& key == Key::Enter && !valid_selection(mid.selected_index, files) ==> post == pre
        && r is Idle
    &&& key matches Key::Char(c) ==> r is Idle && (if '0' <= c && c <= '9'
        && pre.text_buffer->Some_0@.len() < 3 {
        post == (AppState { text_buffer: post.text_buffer, ..pre }) && (post.text_buffer
            matches Some(b) && b@ == pre.text_buffer->Some_0@.push(c))
    } else {
        post == pre
    })
    &&& key == Key::Backspace ==> r is Idle && post == (AppState {
        text_buffer: post.text_buffer,
        ..pre
    }) && (post.text_buffer matches Some(b) && b@ == (if pre.text_buffer->Some_0@.len() > 0 {
        pre.text_buffer->Some_0@.drop_last()
    } else {
        pre.text_buffer->Some_0@
    }))
    &&& key == Key::OtherKey ==> r is Idle && post == pre
}

/// The permission prompt: digit keys grow the three-digit mode string,
/// backspace shrinks it. Enter, with something selected, leaves the mode
/// and either asks for the permission change or — where the digits are
/// no octal mode — only reports the invalid value; without a selection
/// nothing happens. Escape discards everything.
pub fn handle_permissions_mode(
    key: Key,
    current_dir: &FsPath,
    middle_state: &ListCursor,
    files: &Vec<FileInfo>,
    app_state: &mut AppState,
) -> (r: Action)
    requires
        old(app_state).wf(),
        old(app_state).mode == Mode::PermissionsEdit,
    ensures
        final(app_state).wf(),
        permissions_mode_step(
            key,
            current_dir@,
            *middle_state,
            files@,
            *old(app_state),
            *final(app_state),
            r,
        ),
{
    match key {
        Key::Char(c) => {
            let is_digit = '0' <= c && c <= '9';
            let short = match &app_state.text_buffer {
                Some(b) => b.as_str().unicode_len() < 3,
                None => {
                    proof {
                        assert(false);
                    }
                    false
                },
            };
            if is_digit && short {
                match &mut app_state.text_buffer {
                    Some(buffer) => {
                        buffer.push(c);
                    },
                    None => {
                        proof {
                            assert(false);
                        }
                    },
                }
            }
            Action::Idle
        },
        Key::Backspace => {
            match &mut app_state.text_buffer {
                Some(buffer) => {
                    let _ = buffer.pop();
                },
                None => {
                    proof {
                        assert(false);
                    }
                },
            }
            Action::Idle
        },
        Key::Enter => {
            match middle_state.selected() {
                Some(index) => {
                    if index < files.len() {
                        let digits = match &app_state.text_buffer {
                            Some(b) => b.clone(),
                            None => {
                                proof {
                                    assert(false);
                                }
                                String::new()
                            },
                        };
                        app_state.mode = Mode::Normal;
                        app_state.text_buffer = None;
                        match parse_octal(&digits) {
                            Some(mode_bits) => {
                                let file_path = current_dir.join(&files[index].name);
                                Action::SetPermissionsAt { path: file_path, mode_bits }
                            },
                            None => {
                                app_state.prompt_message = Some(
                                    PromptMessage::InvalidPermissions,
                                );
                                Action::Idle
                            },
                        }
                    } else {
                        Action::Idle
                    }
                },
                None => Action::Idle,
            }
        },
        Key::Esc => {
            app_state.mode = Mode::Normal;
            app_state.prompt_message = None;
            app_state.text_buffer = None;
            Action::Idle
        },
        Key::OtherKey => Action::Idle,
    }
}

} // verus!
