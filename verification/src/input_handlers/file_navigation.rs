//! Navigation: pattern search with wrap-around, cursor movement,
//! half-page jumps, the jump chords, and leaving the session.

use vstd::prelude::*;
use crate::fs_utils::FileInfo;
use crate::paths::FsPath;
use crate::input_handlers::file_manipulation::valid_selection;
use crate::state::{Action, AppState, KeyModifier, ListCursor, Mode, PromptMessage};

verus! {

/// Whether this pattern text compiles as a regular expression: the
/// outcome of `regex::Regex::new`, a function of the pattern alone.
pub uninterp spec fn pattern_ok(pattern: Seq<char>) -> bool;

/// Whether the compiled pattern matches somewhere in the name: the
/// outcome of `regex::Regex::is_match`, a function of pattern and name
/// alone.
pub uninterp spec fn pattern_matches(pattern: Seq<char>, name: Seq<char>) -> bool;

/// An entry counts as found when the pattern is well formed and matches
/// its name; a malformed pattern finds nothing.
pub open spec fn entry_match(pattern: Seq<char>, files: Seq<FileInfo>, i: int) -> bool {
    pattern_ok(pattern) && pattern_matches(pattern, files[i].name@)
}

/// Relies on `regex::Regex::new` and `regex::Regex::is_match` of the
/// regex crate: compilation succeeds or fails by the pattern text alone,
/// and a compiled pattern matches by pattern and haystack alone; a
/// pattern that does not compile matches nothing.
#[verifier::external_body]
fn regex_match_name(pattern: &str, name: &str) -> (r: bool)
    ensures
        r == (pattern_ok(pattern@) && pattern_matches(pattern@, name@)),
{
    regex::Regex::new(pattern).ok().map_or(false, |re| re.is_match(name))
}

/// The first found entry in `[lo, hi)`, scanning forward.
pub open spec fn first_match_in(
    pattern: Seq<char>,
    files: Seq<FileInfo>,
    lo: int,
    hi: int,
) -> Option<int>
    decreases hi - lo,
{
    if lo >= hi {
        None
    } else if entry_match(pattern, files, lo) {
        Some(lo)
    } else {
        first_match_in(pattern, files, lo + 1, hi)
    }
}

/// The first found entry in `[lo, hi)`, scanning backward from the end.
pub open spec fn last_match_in(
    pattern: Seq<char>,
    files: Seq<FileInfo>,
    lo: int,
    hi: int,
) -> Option<int>
    decreases hi - lo,
{
    if lo >= hi {
        None
    } else if entry_match(pattern, files, hi - 1) {
        Some(hi - 1)
    } else {
        last_match_in(pattern, files, lo, hi - 1)
    }
}

/// Where a search lands. Forward: from the start index to the end, then
/// wrapping from the front up to the start index. Backward: from just
/// before the start index down to the front, then wrapping from the end
/// down to just past the start index — the start index itself is never
/// re-found backward.
pub open spec fn spec_search(
    pattern: Seq<char>,
    files: Seq<FileInfo>,
    start: int,
    reverse: bool,
) -> Option<int> {
    let len = files.len() as int;
    let s = if start <= len {
        start
    } else {
        len
    };
    if !reverse {
        match first_match_in(pattern, files, s, len) {
            Some(i) => Some(i),
            None => first_match_in(pattern, files, 0, s),
        }
    } else {
        match last_match_in(pattern, files, 0, s) {
            Some(i) => Some(i),
            None => last_match_in(pattern, files, start + 1, len),
        }
    }
}

proof fn lemma_first_match_extend(pattern: Seq<char>, files: Seq<FileInfo>, lo: int, hi: int)
    requires
        lo <= hi,
        first_match_in(pattern, files, lo, hi) is None,
    ensures
        first_match_in(pattern, files, lo, hi + 1) == if entry_match(pattern, files, hi) {
            Some(hi)
        } else {
            None::<int>
        },
    decreases hi - lo,
{
    if lo < hi {
        lemma_first_match_extend(pattern, files, lo + 1, hi);
    } else {
        assert(first_match_in(pattern, files, hi + 1, hi + 1) is None);
    }
}

proof fn lemma_first_match_found(pattern: Seq<char>, files: Seq<FileInfo>, lo: int, mid: int, hi: int)
    requires
        lo <= mid < hi,
        first_match_in(pattern, files, lo, mid) is None,
        entry_match(pattern, files, mid),
    ensures
        first_match_in(pattern, files, lo, hi) == Some(mid),
    decreases mid - lo,
{
    if lo < mid {
        lemma_first_match_found(pattern, files, lo + 1, mid, hi);
    }
}

proof fn lemma_last_match_extend(pattern: Seq<char>, files: Seq<FileInfo>, lo: int, hi: int)
    requires
        lo <= hi,
        last_match_in(pattern, files, lo, hi) is None,
    ensures
        last_match_in(pattern, files, lo - 1, hi) == if entry_match(pattern, files, lo - 1) {
            Some(lo - 1)
        } else {
            None::<int>
        },
    decreases hi - lo,
{
    if lo < hi {
        lemma_last_match_extend(pattern, files, lo, hi - 1);
    } else {
        assert(last_match_in(pattern, files, lo - 1, lo - 1) is None);
    }
}

proof fn lemma_last_match_found(pattern: Seq<char>, files: Seq<FileInfo>, lo: int, mid: int, hi: int)
    requires
        lo <= mid < hi,
        last_match_in(pattern, files, mid + 1, hi) is None,
        entry_match(pattern, files, mid),
    ensures
        last_match_in(pattern, files, lo, hi) == Some(mid),
    decreases hi - mid,
{
    if mid + 1 < hi {
        lemma_last_match_found(pattern, files, lo, mid, hi - 1);
    }
}

/// Searches the entry names for the pattern. The scan starts at
/// `start_index` (forward) or just before it (backward) and wraps around
/// the whole list; a pattern that is no valid regular expression finds
/// nothing rather than failing.
pub fn search_files(pattern: &str, files: &Vec<FileInfo>, start_index: usize, reverse: bool) -> (r:
    Option<usize>)
    ensures
        r matches Some(i) ==> spec_search(pattern@, files@, start_index as int, reverse) == Some(
            i as int,
        ),
        r is None ==> spec_search(pattern@, files@, start_index as int, reverse) is None,
{
    let len = files.len();
    let s = if start_index < len {
        start_index
    } else {
        len
    };
    if !reverse {
        let mut j = s;
        while j < len
            invariant
                !reverse,
                s <= j <= len,
                len == files@.len(),
                s == (if start_index < len {
                    start_index
                } else {
                    len
                }),
                first_match_in(pattern@, files@, s as int, j as int) is None,
            decreases len - j,
        {
            if regex_match_name(pattern, files[j].name.as_str()) {
                proof {
                    lemma_first_match_found(pattern@, files@, s as int, j as int, len as int);
                }
                return Some(j);
            }
            proof {
                lemma_first_match_extend(pattern@, files@, s as int, j as int);
            }
            j += 1;
        }
        let mut j: usize = 0;
        while j < s
            invariant
                !reverse,
                0 <= j <= s,
                len == files@.len(),
                s <= len,
                s == (if start_index < len {
                    start_index
                } else {
                    len
                }),
                first_match_in(pattern@, files@, s as int, len as int) is None,
                first_match_in(pattern@, files@, 0, j as int) is None,
            decreases s - j,
        {
            if regex_match_name(pattern, files[j].name.as_str()) {
                proof {
                    lemma_first_match_found(pattern@, files@, 0, j as int, s as int);
                }
                return Some(j);
            }
            proof {
                lemma_first_match_extend(pattern@, files@, 0, j as int);
            }
            j += 1;
        }
        None
    } else {
        let mut j = s;
        while j > 0
            invariant
                reverse,
                0 <= j <= s <= len,
                len == files@.len(),
                s == (if start_index < len {
                    start_index
                } else {
                    len
                }),
                last_match_in(pattern@, files@, j as int, s as int) is None,
            decreases j,
        {
            proof {
                lemma_last_match_extend(pattern@, files@, j as int, s as int);
            }
            j -= 1;
            if regex_match_name(pattern, files[j].name.as_str()) {
                proof {
                    lemma_last_match_found(pattern@, files@, 0, j as int, s as int);
                }
                return Some(j);
            }
        }
        let lb = if start_index < len {
            start_index + 1
        } else {
            len
        };
        let mut j = len;
        while j > lb
            invariant
                reverse,
                lb <= j <= len,
                len == files@.len(),
                s == (if start_index < len {
                    start_index
                } else {
                    len
                }),
                lb == (if start_index < len {
                    start_index + 1
                } else {
                    len as int
                }),
                last_match_in(pattern@, files@, 0, s as int) is None,
                last_match_in(pattern@, files@, j as int, len as int) is None,
            decreases j,
        {
            proof {
                lemma_last_match_extend(pattern@, files@, j as int, len as int);
            }
            j -= 1;
            if regex_match_name(pattern, files[j].name.as_str()) {
                proof {
                    lemma_last_match_found(pattern@, files@, start_index as int + 1, j as int, len as int);
                }
                return Some(j);
            }
        }
        proof {
            if start_index as int + 1 > len {
                assert(last_match_in(pattern@, files@, start_index as int + 1, len as int)
                    is None);
            }
        }
        None
    }
}

/// Steps the cursor one row up or down, clamped at the ends; an empty
/// list clears the selection, and a cleared selection restarts at the
/// top.
pub fn adjust_selection(state: &mut ListCursor, max_len: usize, increment: bool)
    ensures
        max_len == 0 ==> final(state).selected_index is None,
        max_len > 0 ==> final(state).selected_index == Some(
            spec_adjusted(old(state).selected_index, max_len, increment),
        ),
{
    if max_len == 0 {
        state.select(None);
        return;
    }
    let i: usize = match state.selected() {
        Some(i) => {
            if increment {
                if i >= max_len - 1 {
                    i
                } else {
                    i + 1
                }
            } else {
                if i == 0 {
                    i
                } else {
                    i - 1
                }
            }
        },
        None => 0,
    };
    state.select(Some(i));
}

/// The row the cursor steps to in a non-empty list.
pub open spec fn spec_adjusted(sel: Option<usize>, max_len: usize, increment: bool) -> usize {
    match sel {
        Some(i) => if increment {
            if i >= max_len - 1 {
                i
            } else {
                (i + 1) as usize
            }
        } else {
            if i == 0 {
                i
            } else {
                (i - 1) as usize
            }
        },
        None => 0,
    }
}

/// Moves the selection down a row, or with the alternate modifier
/// scrolls the preview down a line, never past its end.
pub fn move_down(
    middle_state: &mut ListCursor,
    max_len: usize,
    scroll_position: &mut usize,
    max_scroll: &usize,
    app_state: &mut AppState,
)
    ensures
        *final(app_state) == *old(app_state),
        old(app_state).last_modifier == Some(KeyModifier::Alt) ==> *final(middle_state) == *old(middle_state) && *final(scroll_position) == if *old(scroll_position) < *max_scroll {
            *old(scroll_position) + 1
        } else {
            *old(scroll_position) as int
        },
        old(app_state).last_modifier == Some(KeyModifier::Plain) ==> *final(scroll_position)
            == *old(scroll_position) && (max_len == 0 ==> final(middle_state).selected_index
            is None) && (max_len > 0 ==> final(middle_state).selected_index == Some(
            spec_adjusted(old(middle_state).selected_index, max_len, true),
        )),
        old(app_state).last_modifier != Some(KeyModifier::Alt) && old(app_state).last_modifier
            != Some(KeyModifier::Plain) ==> *final(middle_state) == *old(middle_state) && *final(scroll_position) == *old(scroll_position),
{
    if app_state.last_modifier == Some(KeyModifier::Alt) {
        if *scroll_position < *max_scroll {
            *scroll_position += 1;
        }
    } else if app_state.last_modifier == Some(KeyModifier::Plain) {
        adjust_selection(middle_state, max_len, true);
    }
}

/// Moves the selection up a row, or with the alternate modifier scrolls
/// the preview up a line, never before the top.
pub fn move_up(
    middle_state: &mut ListCursor,
    max_len: usize,
    scroll_position: &mut usize,
    app_state: &mut AppState,
)
    ensures
        *final(app_state) == *old(app_state),
        old(app_state).last_modifier == Some(KeyModifier::Alt) ==> *final(middle_state) == *old(middle_state) && *final(scroll_position) == if *old(scroll_position) > 0 {
            (*old(scroll_position) - 1) as usize
        } else {
            0usize
        },
        old(app_state).last_modifier == Some(KeyModifier::Plain) ==> *final(scroll_position)
            == *old(scroll_position) && (max_len == 0 ==> final(middle_state).selected_index
            is None) && (max_len > 0 ==> final(middle_state).selected_index == Some(
            spec_adjusted(old(middle_state).selected_index, max_len, false),
        )),
        old(app_state).last_modifier != Some(KeyModifier::Alt) && old(app_state).last_modifier
            != Some(KeyModifier::Plain) ==> *final(middle_state) == *old(middle_state) && *final(scroll_position) == *old(scroll_position),
{
    if app_state.last_modifier == Some(KeyModifier::Alt) {
        if *scroll_position > 0 {
            *scroll_position -= 1;
        }
    } else if app_state.last_modifier == Some(KeyModifier::Plain) {
        adjust_selection(middle_state, max_len, false);
    }
}

/// Where half-page movement lands a selection after `steps` single rows.
pub open spec fn spec_stepped(sel: Option<usize>, max_len: usize, steps: usize, down: bool) -> Option<
    usize,
> {
    if steps == 0 {
        sel
    } else if max_len == 0 {
        None
    } else {
        let base: int = match sel {
            Some(i) => i as int,
            None => if down {
                -1
            } else {
                1
            },
        };
        if down {
            if base + steps >= max_len {
                if base >= max_len {
                    Some(base as usize)
                } else {
                    Some((max_len - 1) as usize)
                }
            } else {
                Some((base + steps) as usize)
            }
        } else {
            if base - steps <= 0 {
                Some(0usize)
            } else {
                Some((base - steps) as usize)
            }
        }
    }
}

/// With the control modifier, jumps the selection half a page down and
/// leaves the plain modifier behind; with the alternate modifier, jumps
/// the preview scroll half a page down, clamped at its end.
pub fn move_down_half(
    middle_state: &mut ListCursor,
    files_len: usize,
    scroll_position: &mut usize,
    max_scroll: &usize,
    app_state: &mut AppState,
)
    ensures
        ({
            let half = old(app_state).terminal_height / 2;
            &&& old(app_state).last_modifier == Some(KeyModifier::Control) ==> *final(app_state)
                == (AppState { last_modifier: Some(KeyModifier::Plain), ..*old(app_state) }) && *final(scroll_position) == *old(scroll_position) && final(middle_state).selected_index == spec_stepped(
                old(middle_state).selected_index,
                files_len,
                half,
                true,
            )
            &&& old(app_state).last_modifier == Some(KeyModifier::Alt) ==> *final(app_state) == *old(app_state) && *final(middle_state) == *old(middle_state) && *final(scroll_position) == if *old(scroll_position) + half <= *max_scroll {
                *old(scroll_position) + half
            } else {
                *max_scroll as int
            }
            &&& old(app_state).last_modifier != Some(KeyModifier::Control) && old(app_state).last_modifier != Some(KeyModifier::Alt) ==> *final(app_state) == *old(app_state)
                && *final(middle_state) == *old(middle_state) && *final(scroll_position) == *old(scroll_position)
        }),
{
    let half_screen = app_state.terminal_height / 2;
    if app_state.last_modifier == Some(KeyModifier::Control) {
        app_state.last_modifier = Some(KeyModifier::Plain);
        let mut step: usize = 0;
        while step < half_screen
            invariant
                step <= half_screen,
                app_state.last_modifier == Some(KeyModifier::Plain),
                *scroll_position == *old(scroll_position),
                *app_state == (AppState {
                    last_modifier: Some(KeyModifier::Plain),
                    ..*old(app_state)
                }),
                middle_state.selected_index == spec_stepped(
                    old(middle_state).selected_index,
                    files_len,
                    step,
                    true,
                ),
            decreases half_screen - step,
        {
            move_down(middle_state, files_len, scroll_position, max_scroll, app_state);
            step += 1;
        }
    } else if app_state.last_modifier == Some(KeyModifier::Alt) {
        if *scroll_position <= usize::MAX - half_screen && *scroll_position + half_screen
            <= *max_scroll {
            *scroll_position = *scroll_position + half_screen;
        } else {
            *scroll_position = *max_scroll;
        }
        proof {
            assert(*old(scroll_position) + half_screen <= *max_scroll ==> *old(scroll_position)
                + half_screen <= usize::MAX);
        }
    }
}

/// With the control modifier, jumps the selection half a page up and
/// leaves the plain modifier behind; with the alternate modifier, jumps
/// the preview scroll half a page up, clamped at the top.
pub fn move_up_half(
    middle_state: &mut ListCursor,
    files_len: usize,
    scroll_position: &mut usize,
    app_state: &mut AppState,
)
    ensures
        ({
            let half = old(app_state).terminal_height / 2;
            &&& old(app_state).last_modifier == Some(KeyModifier::Control) ==> *final(app_state)
                == (AppState { last_modifier: Some(KeyModifier::Plain), ..*old(app_state) }) && *final(scroll_position) == *old(scroll_position) && final(middle_state).selected_index == spec_stepped(
                old(middle_state).selected_index,
                files_len,
                half,
                false,
            )
            &&& old(app_state).last_modifier == Some(KeyModifier::Alt) ==> *final(app_state) == *old(app_state) && *final(middle_state) == *old(middle_state) && *final(scroll_position) == if *old(scroll_position) >= half {
                (*old(scroll_position) - half) as usize
            } else {
                0usize
            }
            &&& old(app_state).last_modifier != Some(KeyModifier::Control) && old(app_state).last_modifier != Some(KeyModifier::Alt) ==> *final(app_state) == *old(app_state)
                && *final(middle_state) == *old(middle_state) && *final(scroll_position) == *old(scroll_position)
        }),
{
    let half_screen = app_state.terminal_height / 2;
    if app_state.last_modifier == Some(KeyModifier::Control) {
        app_state.last_modifier = Some(KeyModifier::Plain);
        let mut step: usize = 0;
        while step < half_screen
            invariant
                step <= half_screen,
                app_state.last_modifier == Some(KeyModifier::Plain),
                *scroll_position == *old(scroll_position),
                *app_state == (AppState {
                    last_modifier: Some(KeyModifier::Plain),
                    ..*old(app_state)
                }),
                middle_state.selected_index == spec_stepped(
                    old(middle_state).selected_index,
                    files_len,
                    step,
                    false,
                ),
            decreases half_screen - step,
        {
            move_up(middle_state, files_len, scroll_position, app_state);
            step += 1;
        }
    } else if app_state.last_modifier == Some(KeyModifier::Alt) {
        if *scroll_position >= half_screen {
            *scroll_position -= half_screen;
        } else {
            *scroll_position = 0;
        }
    }
}

/// Steps out into the parent directory, putting the cursor on its first
/// entry; at the filesystem root it only clears the left pane's cursor.
pub fn move_out(current_dir: &mut FsPath, middle_state: &mut ListCursor, left_state: &mut ListCursor)
    ensures
        old(current_dir)@.len() > 0 ==> final(current_dir)@ == old(current_dir)@.drop_last()
            && final(middle_state).selected_index == Some(0usize) && *final(left_state) == *old(left_state),
        old(current_dir)@.len() == 0 ==> final(current_dir)@ == old(current_dir)@ && *final(middle_state) == *old(middle_state) && final(left_state).selected_index is None,
{
    match current_dir.parent() {
        Some(parent) => {
            *current_dir = parent;
            middle_state.select(Some(0));
        },
        None => {
            left_state.select(None);
        },
    }
}

/// Opens the search prompt: search mode with a cleared pattern.
pub fn handle_search(app_state: &mut AppState)
    requires
        old(app_state).wf(),
        old(app_state).mode == Mode::Normal,
    ensures
        final(app_state).wf(),
        *final(app_state) == (AppState {
            mode: Mode::Search,
            search_pattern: None,
            prompt_message: final(app_state).prompt_message,
            ..*old(app_state)
        }),
        final(app_state).prompt_message matches Some(PromptMessage::SearchInput{pattern})
            && pattern@ == Seq::<char>::empty(),
{
    app_state.mode = Mode::Search;
    app_state.search_pattern = None;
    app_state.prompt_message = Some(PromptMessage::SearchInput { pattern: String::new() });
}

/// Jumps to the next found entry after the cursor, wrapping around; does
/// nothing without a pattern.
pub fn next_search(middle_state: &mut ListCursor, files: &Vec<FileInfo>, app_state: &mut AppState)
    ensures
        old(app_state).search_pattern is None ==> *final(app_state) == *old(app_state) && *final(middle_state) == *old(middle_state),
        old(app_state).search_pattern matches Some(p) ==> ({
            let sel = match old(middle_state).selected_index {
                Some(i) => i as int,
                None => 0,
            };
            let start = if sel < files@.len() {
                sel + 1
            } else {
                files@.len() as int
            };
            let found = spec_search(p@, files@, start, false);
            &&& *final(app_state) == (AppState {
                last_search_index: final(app_state).last_search_index,
                ..*old(app_state)
            })
            &&& (found matches Some(i) ==> final(app_state).last_search_index == Some(i as usize)
                && final(middle_state).selected_index == Some(i as usize))
            &&& (found is None ==> final(app_state).last_search_index is None && *final(middle_state) == *old(middle_state))
        }),
{
    let has_pattern = app_state.search_pattern.is_some();
    if has_pattern {
        let pattern = match &app_state.search_pattern {
            Some(p) => p.clone(),
            None => String::new(),
        };
        let sel = match middle_state.selected() {
            Some(i) => i,
            None => 0,
        };
        let start = if sel < files.len() {
            sel + 1
        } else {
            files.len()
        };
        let found = search_files(pattern.as_str(), files, start, false);
        app_state.last_search_index = found;
        match found {
            Some(index) => {
                middle_state.select(Some(index));
            },
            None => {},
        }
    }
}

/// Jumps to the previous found entry before the cursor, wrapping around
/// and never re-finding the cursor's own row; does nothing without a
/// pattern.
pub fn previous_search(
    middle_state: &mut ListCursor,
    files: &Vec<FileInfo>,
    app_state: &mut AppState,
)
    ensures
        old(app_state).search_pattern is None ==> *final(app_state) == *old(app_state) && *final(middle_state) == *old(middle_state),
        old(app_state).search_pattern matches Some(p) ==> ({
            let start = match old(middle_state).selected_index {
                Some(i) => i as int,
                None => 0,
            };
            let found = spec_search(p@, files@, start, true);
            &&& *final(app_state) == (AppState {
                last_search_index: final(app_state).last_search_index,
                ..*old(app_state)
            })
            &&& (found matches Some(i) ==> final(app_state).last_search_index == Some(i as usize)
                && final(middle_state).selected_index == Some(i as usize))
            &&& (found is None ==> final(app_state).last_search_index is None && *final(middle_state) == *old(middle_state))
        }),
{
    let has_pattern = app_state.search_pattern.is_some();
    if has_pattern {
        let pattern = match &app_state.search_pattern {
            Some(p) => p.clone(),
            None => String::new(),
        };
        let start = match middle_state.selected() {
            Some(i) => i,
            None => 0,
        };
        let found = search_files(pattern.as_str(), files, start, true);
        app_state.last_search_index = found;
        match found {
            Some(index) => {
                middle_state.select(Some(index));
            },
            None => {},
        }
    }
}

/// The two-key jump chord: a first press arms it, a second consecutive
/// press jumps — to the top row with the plain modifier, to the top of
/// the preview otherwise — and disarms it again.
pub fn go_to_top(middle_state: &mut ListCursor, app_state: &mut AppState, scroll_position: &mut usize)
    ensures
        old(app_state).last_key_pressed == Some('g') ==> *final(app_state) == (AppState {
            last_key_pressed: None,
            ..*old(app_state)
        }) && (old(app_state).last_modifier == Some(KeyModifier::Plain) ==> final(middle_state).selected_index == Some(0usize) && *final(scroll_position) == *old(scroll_position)) && (
        old(app_state).last_modifier != Some(KeyModifier::Plain) ==> *final(middle_state) == *old(middle_state) && *final(scroll_position) == 0),
        old(app_state).last_key_pressed != Some('g') ==> *final(app_state) == (AppState {
            last_key_pressed: Some('g'),
            ..*old(app_state)
        }) && *final(middle_state) == *old(middle_state) && *final(scroll_position) == *old(scroll_position),
{
    if app_state.last_key_pressed == Some('g') {
        if app_state.last_modifier == Some(KeyModifier::Plain) {
            middle_state.select(Some(0));
        } else {
            *scroll_position = 0;
        }
        app_state.last_key_pressed = None;
    } else {
        app_state.last_key_pressed = Some('g');
    }
}

/// Jumps to the last row with the shift modifier, or to the bottom of
/// the preview without it.
pub fn go_to_bottom(
    middle_state: &mut ListCursor,
    app_state: &mut AppState,
    files_len: usize,
    scroll_position: &mut usize,
    max_scroll: &usize,
)
    ensures
        *final(app_state) == *old(app_state),
        old(app_state).last_modifier == Some(KeyModifier::Shift) ==> *final(scroll_position)
            == *old(scroll_position) && (files_len > 0 ==> final(middle_state).selected_index
            == Some((files_len - 1) as usize)) && (files_len == 0 ==> *final(middle_state) == *old(middle_state)),
        old(app_state).last_modifier != Some(KeyModifier::Shift) ==> *final(scroll_position)
            == *max_scroll && *final(middle_state) == *old(middle_state),
{
    if app_state.last_modifier == Some(KeyModifier::Shift) {
        if files_len > 0 {
            middle_state.select(Some(files_len - 1));
        }
    } else {
        *scroll_position = *max_scroll;
    }
}

/// Steps into the selected entry: a directory becomes the current one
/// with the cursor on its first row, a file is handed to the editor.
pub fn move_in(
    current_dir: &mut FsPath,
    middle_state: &mut ListCursor,
    files: &Vec<FileInfo>,
    app_state: &mut AppState,
) -> (r: Action)
    ensures
        *final(app_state) == *old(app_state),
        valid_selection(old(middle_state).selected_index, files@) ==> ({
            let i = old(middle_state).selected_index->Some_0 as int;
            let target = old(current_dir)@.push(files@[i].name@);
            if files@[i].is_dir {
                final(current_dir)@ == target && final(middle_state).selected_index == Some(0usize)
                    && r is Idle
            } else {
                final(current_dir)@ == old(current_dir)@ && *final(middle_state) == *old(
                    middle_state,
                ) && (r matches Action::OpenEditor{path} && path@ == target)
            }
        }),
        !valid_selection(old(middle_state).selected_index, files@) ==> final(current_dir)@ == old(
            current_dir,
        )@ && *final(middle_state) == *old(middle_state) && r is Idle,
{
    match middle_state.selected() {
        Some(index) => {
            if index < files.len() {
                let potential_path = current_dir.join(&files[index].name);
                if files[index].is_dir {
                    *current_dir = potential_path;
                    middle_state.select(Some(0));
                    Action::Idle
                } else {
                    Action::OpenEditor { path: potential_path }
                }
            } else {
                Action::Idle
            }
        },
        None => Action::Idle,
    }
}

/// Re-clamps the cursor to a freshly read listing: entries can vanish
/// between reads, so a cursor past the end moves to the last row and a
/// cursor over an empty listing clears.
pub fn clamp_selection(state: &mut ListCursor, len: usize)
    ensures
        len == 0 ==> final(state).selected_index is None,
        len > 0 ==> final(state).selected_index == (match old(state).selected_index {
            Some(i) => if i < len {
                Some(i)
            } else {
                Some((len - 1) as usize)
            },
            None => old(state).selected_index,
        }),
{
    match state.selected() {
        Some(sel) => {
            if len == 0 {
                state.select(None);
            } else if sel >= len {
                state.select(Some(len - 1));
            }
        },
        None => {
            if len == 0 {
                state.select(None);
            }
        },
    }
}

/// The quit signal for the session loop.
pub fn handle_quit() -> (r: bool)
    ensures
        r,
{
    true
}

} // verus!
