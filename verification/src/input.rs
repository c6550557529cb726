//! The modal input controller: one key event in, the next session state
//! and at most one outward action out.

use vstd::prelude::*;
use crate::fs_utils::FileInfo;
use crate::input_handlers::modes;
use crate::paths::FsPath;
use crate::state::{Action, AppState, Key, KeyModifier, ListCursor, Mode, PromptMessage};

verus! {

/// Handles one key event against the active mode. The mode moves only
/// along the modal wheel: a mode other than normal either stays or falls
/// back to normal, and a mode other than normal is only ever entered
/// from normal. The session ends exactly on the quit key in normal mode.
pub fn handle_input(
    key: Key,
    modifiers: KeyModifier,
    current_dir: &mut FsPath,
    middle_state: &mut ListCursor,
    left_state: &mut ListCursor,
    files: &Vec<FileInfo>,
    scroll_position: &mut usize,
    max_scroll: &usize,
    app_state: &mut AppState,
    permissions_supported: bool,
) -> (r: Action)
    requires
        old(app_state).wf(),
    ensures
        final(app_state).wf(),
        old(app_state).mode != Mode::Normal ==> final(app_state).mode == old(app_state).mode
            || final(app_state).mode == Mode::Normal,
        final(app_state).mode != old(app_state).mode && final(app_state).mode != Mode::Normal
            ==> old(app_state).mode == Mode::Normal,
        (r is Quit) <==> (old(app_state).mode == Mode::Normal && key == Key::Char('q')),
        // the active mode's own step relation, against the state with the
        // key's modifier recorded
        ({
            let pre = AppState { last_modifier: Some(modifiers), ..*old(app_state) };
            match old(app_state).mode {
                Mode::Normal => modes::normal_mode_step(
                    key,
                    files@,
                    permissions_supported,
                    *max_scroll,
                    old(current_dir)@,
                    final(current_dir)@,
                    *old(middle_state),
                    *final(middle_state),
                    *old(left_state),
                    *final(left_state),
                    *old(scroll_position),
                    *final(scroll_position),
                    pre,
                    *final(app_state),
                    r,
                ),
                Mode::Search => modes::search_mode_step(
                    key,
                    files@,
                    *old(middle_state),
                    *final(middle_state),
                    pre,
                    *final(app_state),
                    r,
                ) && final(current_dir)@ == old(current_dir)@,
                Mode::DeleteConfirm => modes::delete_mode_step(
                    key,
                    old(current_dir)@,
                    *old(middle_state),
                    files@,
                    pre,
                    *final(app_state),
                    r,
                ) && final(current_dir)@ == old(current_dir)@ && *final(middle_state) == *old(middle_state),
                Mode::Rename => modes::rename_mode_step(
                    key,
                    old(current_dir)@,
                    *old(middle_state),
                    files@,
                    pre,
                    *final(app_state),
                    r,
                ) && final(current_dir)@ == old(current_dir)@ && *final(middle_state) == *old(middle_state),
                Mode::CreateFile => modes::creation_step(
                    key,
                    old(current_dir)@,
                    files@,
                    pre,
                    *final(app_state),
                    r,
                ) && final(current_dir)@ == old(current_dir)@ && *final(middle_state) == *old(middle_state),
                Mode::CreateDirectory => modes::creation_step(
                    key,
                    old(current_dir)@,
                    files@,
                    pre,
                    *final(app_state),
                    r,
                ) && final(current_dir)@ == old(current_dir)@ && *final(middle_state) == *old(middle_state),
                Mode::PermissionsEdit => modes::permissions_mode_step(
                    key,
                    old(current_dir)@,
                    *old(middle_state),
                    files@,
                    pre,
                    *final(app_state),
                    r,
                ) && final(current_dir)@ == old(current_dir)@ && *final(middle_state) == *old(middle_state),
            }
        }),
        // the panes the active mode does not touch stay as they are
        old(app_state).mode != Mode::Normal ==> *final(left_state) == *old(left_state) && *final(scroll_position) == *old(scroll_position),
{
    app_state.last_modifier = Some(modifiers);
    match app_state.mode {
        Mode::DeleteConfirm => modes::handle_delete_mode(
            key,
            current_dir,
            middle_state,
            files,
            app_state,
        ),
        Mode::Rename => modes::handle_renaming_mode(
            key,
            current_dir,
            middle_state,
            files,
            app_state,
        ),
        Mode::Search => modes::handle_search_mode(key, middle_state, files, app_state),
        Mode::CreateFile => modes::handle_creation_mode(key, current_dir, files, app_state),
        Mode::CreateDirectory => modes::handle_creation_mode(key, current_dir, files, app_state),
        Mode::PermissionsEdit => modes::handle_permissions_mode(
            key,
            current_dir,
            middle_state,
            files,
            app_state,
        ),
        Mode::Normal => modes::handle_normal_mode(
            key,
            modifiers,
            current_dir,
            middle_state,
            left_state,
            files,
            scroll_position,
            max_scroll,
            app_state,
            permissions_supported,
        ),
    }
}

/// Records the failure of an action on the status line: the message
/// names the operation that failed and carries the reported error text
/// (for the editor, the editor's name). Nothing else changes, and an
/// action that asks for no outside work reports nothing.
pub fn report_action_error(app_state: &mut AppState, action: &Action, detail: String)
    ensures
        *final(app_state) == (AppState {
            prompt_message: final(app_state).prompt_message,
            ..*old(app_state)
        }),
        match action {
            Action::Idle => final(app_state).prompt_message == old(app_state).prompt_message,
            Action::Quit => final(app_state).prompt_message == old(app_state).prompt_message,
            Action::OpenEditor { .. } => final(app_state).prompt_message matches Some(
                PromptMessage::EditorFailed { editor },
            ) && editor@ == detail@,
            Action::CopyEntry { .. } => final(app_state).prompt_message matches Some(
                PromptMessage::CopyFailed { detail: d },
            ) && d@ == detail@,
            Action::MoveEntry { .. } => final(app_state).prompt_message matches Some(
                PromptMessage::MoveFailed { detail: d },
            ) && d@ == detail@,
            Action::DeleteEntry { .. } => final(app_state).prompt_message matches Some(
                PromptMessage::DeleteFailed { detail: d },
            ) && d@ == detail@,
            Action::RenameEntry { src, .. } => final(app_state).prompt_message matches Some(
                PromptMessage::RenameFailed { name, detail: d },
            ) && d@ == detail@ && (src@.len() > 0 ==> name@ == src@.last()),
            Action::CreateFileAt { path } => final(app_state).prompt_message matches Some(
                PromptMessage::CreateFileFailed { name },
            ) && (path@.len() > 0 ==> name@ == path@.last()),
            Action::CreateDirectoryAt { path } => final(app_state).prompt_message matches Some(
                PromptMessage::CreateDirectoryFailed { name },
            ) && (path@.len() > 0 ==> name@ == path@.last()),
            Action::SetPermissionsAt { path, .. } => final(app_state).prompt_message matches Some(
                PromptMessage::SetPermissionsFailed { name, detail: d },
            ) && d@ == detail@ && (path@.len() > 0 ==> name@ == path@.last()),
        },
{
    match action {
        Action::Idle => {},
        Action::Quit => {},
        Action::OpenEditor { .. } => {
            app_state.prompt_message = Some(PromptMessage::EditorFailed { editor: detail });
        },
        Action::CopyEntry { .. } => {
            app_state.prompt_message = Some(PromptMessage::CopyFailed { detail });
        },
        Action::MoveEntry { .. } => {
            app_state.prompt_message = Some(PromptMessage::MoveFailed { detail });
        },
        Action::DeleteEntry { .. } => {
            app_state.prompt_message = Some(PromptMessage::DeleteFailed { detail });
        },
        Action::RenameEntry { src, .. } => {
            let name = match src.file_name() {
                Some(n) => n,
                None => String::new(),
            };
            app_state.prompt_message = Some(PromptMessage::RenameFailed { name, detail });
        },
        Action::CreateFileAt { path } => {
            let name = match path.file_name() {
                Some(n) => n,
                None => String::new(),
            };
            app_state.prompt_message = Some(PromptMessage::CreateFileFailed { name });
        },
        Action::CreateDirectoryAt { path } => {
            let name = match path.file_name() {
                Some(n) => n,
                None => String::new(),
            };
            app_state.prompt_message = Some(PromptMessage::CreateDirectoryFailed { name });
        },
        Action::SetPermissionsAt { path, .. } => {
            let name = match path.file_name() {
                Some(n) => n,
                None => String::new(),
            };
            app_state.prompt_message = Some(PromptMessage::SetPermissionsFailed { name, detail });
        },
    }
}

} // verus!
