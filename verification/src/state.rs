//! Session state: the single active mode, the text buffer it owns, the
//! clipboard, and the cursors of the panes.

use vstd::prelude::*;
use crate::paths::FsPath;

verus! {

/// The one interaction mode the session is in. Exactly one is active at
/// any time; every mode other than `Normal` is entered from `Normal` and
/// left back into it.
#[derive(Clone, Copy, Debug, PartialEq, Eq, Structural)]
pub enum Mode {
    Normal,
    Search,
    Rename,
    CreateFile,
    CreateDirectory,
    DeleteConfirm,
    PermissionsEdit,
}

/// The status line's message. Rendering it as display text is the
/// painting collaborator's business.
#[derive(Clone, Debug, PartialEq, Eq)]
pub enum PromptMessage {
    /// " Are you sure you want to delete name? (y/n)"
    DeleteConfirm { name: String },
    /// " Rename \"name\" to: "
    RenamePrompt { name: String },
    /// " Create new file: "
    CreateFilePrompt,
    /// " Create new directory: "
    CreateDirectoryPrompt,
    /// " Change permissions of \"name\": "
    PermissionsPrompt { name: String },
    /// " Searching for: pattern"
    SearchInput { pattern: String },
    /// A rename target already exists; nothing was touched.
    NameExists,
    /// A creation target already exists; nothing was touched.
    CreateNameExists,
    /// The permission digits did not parse as an octal mode.
    InvalidPermissions,
    /// Changing permissions has no meaning on this platform.
    PermissionsUnsupported,
    /// An operation failed in the filesystem; the detail is the reported
    /// error text.
    CopyFailed { detail: String },
    MoveFailed { detail: String },
    DeleteFailed { detail: String },
    RenameFailed { name: String, detail: String },
    CreateFileFailed { name: String },
    CreateDirectoryFailed { name: String },
    SetPermissionsFailed { name: String, detail: String },
    /// The editor could not open the file; carries the editor's name.
    EditorFailed { editor: String },
}

/// One decoded key press.
#[derive(Clone, Copy, Debug, PartialEq, Eq, Structural)]
pub enum Key {
    Char(char),
    Backspace,
    Enter,
    Esc,
    OtherKey,
}

/// The modifier set held during a key press.
#[derive(Clone, Copy, Debug, PartialEq, Eq, Structural)]
pub enum KeyModifier {
    Plain,
    Shift,
    Control,
    Alt,
    OtherModifier,
}

/// What the session asks its surroundings to do after a key was handled.
/// The caller performs the filesystem or process work and reports a
/// failure back through `report_action_error`.
#[derive(Debug)]
pub enum Action {
    /// Nothing to do outside the session.
    Idle,
    /// End the session loop.
    Quit,
    /// Open the file in the user's editor, blocking.
    OpenEditor { path: FsPath },
    /// Copy `src` (recursively for a directory) to `dest`.
    CopyEntry { src: FsPath, dest: FsPath },
    /// Move `src` to `dest`, by rename or by copy and delete.
    MoveEntry { src: FsPath, dest: FsPath },
    /// Remove `path`, recursively for a directory.
    DeleteEntry { path: FsPath },
    /// Rename `src` to `dest` within its directory.
    RenameEntry { src: FsPath, dest: FsPath },
    /// Create an empty file at `path`.
    CreateFileAt { path: FsPath },
    /// Create an empty directory at `path`.
    CreateDirectoryAt { path: FsPath },
    /// Set the permission bits of `path`.
    SetPermissionsAt { path: FsPath, mode_bits: u32 },
}

/// A pane cursor: the selected row, if any row is selected.
pub struct ListCursor {
    pub selected_index: Option<usize>,
}

impl ListCursor {
    pub fn new() -> (c: ListCursor)
        ensures
            c.selected_index is None,
    {
        ListCursor { selected_index: None }
    }

    pub fn selected(&self) -> (r: Option<usize>)
        ensures
            r == self.selected_index,
    {
        self.selected_index
    }

    pub fn select(&mut self, index: Option<usize>)
        ensures
            final(self).selected_index == index,
    {
        self.selected_index = index;
    }
}

/// The session's mutable state outside the cursors.
pub struct AppState {
    pub mode: Mode,
    /// The first key of a pending two-key chord, armed and disarmed by
    /// the chord rule.
    pub last_key_pressed: Option<char>,
    /// The modifier set of the key being handled.
    pub last_modifier: Option<KeyModifier>,
    /// Whether the clipboard was filled by cut rather than copy.
    pub was_cut: bool,
    /// The sizing hint for half-page jumps and preview windows.
    pub terminal_height: usize,
    pub prompt_message: Option<PromptMessage>,
    /// The search pattern: the live buffer while searching, and the
    /// pattern that next/previous resume from afterwards.
    pub search_pattern: Option<String>,
    pub last_search_index: Option<usize>,
    /// The clipboard: the absolute path picked up by copy or cut.
    pub selected_file_for_copy: Option<FsPath>,
    /// The text being typed in the rename, creation, or permissions
    /// prompt; unset in every other mode.
    pub text_buffer: Option<String>,
}

impl AppState {
    /// The buffer belongs to the buffered-prompt modes and to no other,
    /// and the permission prompt holds at most three digits.
    pub open spec fn wf(self) -> bool {
        &&& (self.mode == Mode::Normal || self.mode == Mode::DeleteConfirm || self.mode
            == Mode::Search ==> self.text_buffer is None)
        &&& (self.mode == Mode::Rename || self.mode == Mode::CreateFile || self.mode
            == Mode::CreateDirectory || self.mode == Mode::PermissionsEdit
            ==> self.text_buffer is Some)
        &&& (self.mode == Mode::PermissionsEdit ==> self.text_buffer->Some_0@.len() <= 3)
    }

    /// A fresh session: normal mode, nothing buffered, nothing pending.
    /// The height hint keeps most of the terminal's rows below the four
    /// taken by borders and the status line.
    pub fn new(terminal_rows: u16) -> (s: AppState)
        ensures
            s.wf(),
            s.mode == Mode::Normal,
            s.last_key_pressed is None,
            s.last_modifier is None,
            !s.was_cut,
            s.prompt_message is None,
            s.search_pattern is None,
            s.last_search_index is None,
            s.selected_file_for_copy is None,
            s.text_buffer is None,
            terminal_rows >= 4 ==> s.terminal_height == ((terminal_rows - 4) as usize) * 90 / 100,
            terminal_rows < 4 ==> s.terminal_height == 0,
    {
        let rows: usize = terminal_rows as usize;
        let terminal_height: usize = if rows >= 4 {
            (rows - 4) * 90 / 100
        } else {
            0
        };
        AppState {
            mode: Mode::Normal,
            last_key_pressed: None,
            last_modifier: None,
            was_cut: false,
            terminal_height,
            prompt_message: None,
            search_pattern: None,
            last_search_index: None,
            selected_file_for_copy: None,
            text_buffer: None,
        }
    }
}

} // verus!
