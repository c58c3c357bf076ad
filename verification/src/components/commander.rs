//! The decisions of the commander: which commands it lists, which one is
//! selected, and how tall the list is.
use vstd::prelude::*;

verus! {

/// Whether a command is listed: visible ones, and with some input only those
/// that match it.
pub open spec fn command_shown(input_is_empty: bool, is_visible: bool, matches: bool) -> bool {
    if input_is_empty {
        is_visible
    } else {
        is_visible && matches
    }
}

pub fn is_command_shown(input_is_empty: bool, is_visible: bool, matches: bool) -> (shown: bool)
    ensures
        shown == command_shown(input_is_empty, is_visible, matches),
{
    if input_is_empty {
        is_visible
    } else {
        is_visible && matches
    }
}

/// Arrow Down selects the next command, and after the last one the first.
pub open spec fn selected_after_down(selected: int, len: int) -> int {
    if len > 0 {
        if selected < len - 1 { selected + 1 } else { 0 }
    } else {
        selected
    }
}

/// Arrow Up selects the previous command, and before the first one the last.
pub open spec fn selected_after_up(selected: int, len: int) -> int {
    if selected > 0 && len > 0 {
        selected - 1
    } else {
        len - 1
    }
}

pub fn select_down(selected: usize, len: usize) -> (next: usize)
    ensures
        next == selected_after_down(selected as int, len as int),
{
    if len > 0 {
        if selected < len - 1 {
            selected + 1
        } else {
            0
        }
    } else {
        selected
    }
}

/// With no command listed there is no index before 0 to select: the list
/// must hold a command.
pub fn select_up(selected: usize, len: usize) -> (next: usize)
    requires
        len > 0,
    ensures
        next == selected_after_up(selected as int, len as int),
{
    if selected > 0 && len > 0 {
        selected - 1
    } else {
        len - 1
    }
}

/// The height of the list: 30 per command (at least one row), at most 200.
pub open spec fn options_height_spec(len: int) -> int {
    let rows = if len >= 1 { len } else { 1 };
    if rows * 30 <= 200 { rows * 30 } else { 200 }
}

pub fn options_height(len: usize) -> (height: usize)
    ensures
        height == options_height_spec(len as int),
{
    let rows = if len >= 1 { len } else { 1 };
    if rows <= 6 {
        rows * 30
    } else {
        200
    }
}

/// Arrow Up undoes Arrow Down, and Arrow Down undoes Arrow Up, on a list
/// that holds the selected command.
pub proof fn law_up_undoes_down(selected: int, len: int)
    requires
        0 <= selected < len,
    ensures
        selected_after_up(selected_after_down(selected, len), len) == selected,
        selected_after_down(selected_after_up(selected, len), len) == selected,
{
}

} // verus!
