//! What an editor does with a keyboard or mouse action: which events reach the
//! text, what gets the focus, and which parts of the interface are told.
use vstd::prelude::*;
use super::app::Channel;
use super::panels_tabs::TabId;
use super::views::EditorView;

verus! {

/// Where the focus stands for one editor.
#[derive(Clone, Copy, PartialEq, Eq, Debug, Structural)]
pub struct EditorFocus {
    /// The panels view has the focus.
    pub panels_view: bool,
    /// The panel that holds the editor has the focus.
    pub panel: bool,
    /// The editor has the focus: its panel has the focus and shows it.
    pub editor: bool,
}

/// The focus of the editor of tab `tab_id`, shown in the panel at
/// `panel_index` whose active tab is `active_tab`.
pub fn editor_focus(
    focused_view: EditorView,
    focused_panel: usize,
    panel_index: usize,
    active_tab: Option<TabId>,
    tab_id: TabId,
) -> (focus: EditorFocus)
    ensures
        focus.panels_view == (focused_view == EditorView::Panels),
        focus.panel == (focused_panel == panel_index),
        focus.editor == (focused_panel == panel_index && active_tab == Some(tab_id)),
{
    let panel = focused_panel == panel_index;
    let shown = match active_tab {
        Some(active) => active == tab_id,
        None => false,
    };
    EditorFocus { panels_view: focused_view == EditorView::Panels, panel, editor: panel && shown }
}

/// Which parts of the interface are told of a change.
#[derive(Clone, Copy, PartialEq, Eq, Debug, Structural)]
pub enum ChannelSelection {
    Current,
    Select(Channel),
    Silence,
}

impl ChannelSelection {
    /// Tells `channel` in place of what was selected.
    pub fn select(&mut self, channel: Channel)
        ensures
            *final(self) == ChannelSelection::Select(channel),
    {
        *self = ChannelSelection::Select(channel);
    }
}

/// The kind of an action on an editor.
#[derive(Clone, Copy, PartialEq, Eq, Debug, Structural)]
pub enum EditorActionKind {
    KeyUp,
    KeyDown,
    Click,
    MouseDown,
    MouseMove,
}

#[derive(Clone, Copy, PartialEq, Eq, Debug, Structural)]
pub enum Arrow {
    Up,
    Down,
}

/// What the editor reads of a key press.
#[derive(Clone, Copy, PartialEq, Eq, Debug, Structural)]
pub struct KeyPress {
    /// The arrow pressed, if an up or down arrow.
    pub arrow: Option<Arrow>,
    /// The physical key is Escape.
    pub escape: bool,
    /// The physical key is S.
    pub key_s: bool,
    /// Alt is held.
    pub alt: bool,
    /// Control is held.
    pub control: bool,
    /// Meta (the command key) is held.
    pub meta: bool,
}

pub const LINES_JUMP_ALT: usize = 5;

pub const LINES_JUMP_CONTROL: usize = 3;

/// How often a key press reaches the text: Alt with an arrow moves five lines,
/// Control with an arrow three, Escape, Alt and Control (or Meta) with S reach
/// nothing, and any other key reaches the text once.
pub open spec fn key_down_repeats(key: KeyPress) -> usize {
    if key.arrow is Some && key.alt {
        LINES_JUMP_ALT
    } else if key.arrow is Some && key.control {
        LINES_JUMP_CONTROL
    } else if key.escape || key.alt || ((key.control || key.meta) && key.key_s) {
        0
    } else {
        1
    }
}

pub open spec fn clamp(v: int, min: int, max: int) -> int {
    if v < min {
        min
    } else if v > max {
        max
    } else {
        v
    }
}

/// The vertical scroll after a key press: Alt with an arrow scrolls by
/// `lines_jump`, kept between `min_height` and 0.
pub open spec fn key_down_scroll(key: KeyPress, current_scroll: i32, lines_jump: i32, min_height: i32) -> Option<i32> {
    if key.alt {
        match key.arrow {
            Some(Arrow::Up) => Some(clamp(current_scroll + lines_jump, min_height as int, 0) as i32),
            Some(Arrow::Down) => Some(clamp(current_scroll - lines_jump, min_height as int, 0) as i32),
            None => None,
        }
    } else {
        None
    }
}

pub struct KeyDownPlan {
    /// How many times the key press reaches the text.
    pub repeats: usize,
    /// The new vertical scroll, if it changes.
    pub scroll_y: Option<i32>,
}

fn clamp_i32(v: i32, min: i32, max: i32) -> (r: i32)
    requires
        min <= max,
    ensures
        r == clamp(v as int, min as int, max as int),
{
    if v < min {
        min
    } else if v > max {
        max
    } else {
        v
    }
}

/// What a key press does to an editor (`lines_jump` and `min_height` are the
/// jump of five lines and the lowest scroll, in pixels).
pub fn plan_key_down(key: KeyPress, current_scroll: i32, lines_jump: i32, min_height: i32) -> (plan: KeyDownPlan)
    requires
        min_height <= 0,
        key.alt && key.arrow == Some(Arrow::Up) ==> i32::MIN <= current_scroll + lines_jump <= i32::MAX,
        key.alt && key.arrow == Some(Arrow::Down) ==> i32::MIN <= current_scroll - lines_jump <= i32::MAX,
    ensures
        plan.repeats == key_down_repeats(key),
        plan.scroll_y == key_down_scroll(key, current_scroll, lines_jump, min_height),
{
    let max_height: i32 = 0;
    match key.arrow {
        Some(arrow) => {
            if key.alt {
                let jump = match arrow {
                    Arrow::Up => clamp_i32(current_scroll + lines_jump, min_height, max_height),
                    Arrow::Down => clamp_i32(current_scroll - lines_jump, min_height, max_height),
                };
                return KeyDownPlan { repeats: LINES_JUMP_ALT, scroll_y: Some(jump) };
            }
            if key.control {
                return KeyDownPlan { repeats: LINES_JUMP_CONTROL, scroll_y: None };
            }
        },
        None => {},
    }
    if key.escape || key.alt || ((key.control || key.meta) && key.key_s) {
        KeyDownPlan { repeats: 0, scroll_y: None }
    } else {
        KeyDownPlan { repeats: 1, scroll_y: None }
    }
}

/// What an action does to the state.
pub struct ReducePlan {
    /// Whether the action reaches the text of the editor.
    pub reaches_editor: bool,
    /// Whether the panel of the editor gets the focus (and shows the tab).
    pub focus_panel: bool,
    /// Whether the view of the panels gets the focus.
    pub focus_panels_view: bool,
    /// Which parts of the interface are told.
    pub channel: ChannelSelection,
}

/// The effect of an action on the editor `tab_id`, given whether the panels
/// view, the editor's panel and the editor itself have the focus, and (for a
/// key press) how often it reaches the text.
pub open spec fn reduce_spec(
    tab_id: TabId,
    kind: EditorActionKind,
    is_panels_view_focused: bool,
    is_panel_focused: bool,
    is_editor_focused: bool,
    key_repeats: usize,
) -> (bool, bool, bool, ChannelSelection) {
    let focused = is_editor_focused && is_panel_focused;
    let tab = Channel::Tab { tab_id };
    match kind {
        EditorActionKind::MouseMove => (focused, false, false, ChannelSelection::Silence),
        EditorActionKind::MouseDown => (
            true,
            !is_editor_focused,
            !is_panels_view_focused,
            if !is_panels_view_focused {
                ChannelSelection::Select(Channel::Global)
            } else if !is_editor_focused {
                ChannelSelection::Select(Channel::AllTabs)
            } else {
                ChannelSelection::Select(tab)
            },
        ),
        EditorActionKind::Click => (true, false, false, ChannelSelection::Silence),
        EditorActionKind::KeyUp => (
            focused,
            false,
            false,
            if focused { ChannelSelection::Select(tab) } else { ChannelSelection::Silence },
        ),
        EditorActionKind::KeyDown => (
            focused && key_repeats > 0,
            false,
            false,
            if focused && key_repeats > 0 { ChannelSelection::Select(tab) } else { ChannelSelection::Silence },
        ),
    }
}

pub fn plan_reduce(
    tab_id: TabId,
    kind: EditorActionKind,
    is_panels_view_focused: bool,
    is_panel_focused: bool,
    is_editor_focused: bool,
    key_repeats: usize,
) -> (plan: ReducePlan)
    ensures
        (plan.reaches_editor, plan.focus_panel, plan.focus_panels_view, plan.channel) == reduce_spec(
            tab_id,
            kind,
            is_panels_view_focused,
            is_panel_focused,
            is_editor_focused,
            key_repeats,
        ),
{
    let silence = ReducePlan {
        reaches_editor: false,
        focus_panel: false,
        focus_panels_view: false,
        channel: ChannelSelection::Silence,
    };
    match kind {
        EditorActionKind::MouseMove => {
            if is_editor_focused && is_panel_focused {
                ReducePlan { reaches_editor: true, ..silence }
            } else {
                silence
            }
        },
        EditorActionKind::MouseDown => {
            let mut channel = ChannelSelection::Select(Channel::follow_tab(tab_id));
            if !is_editor_focused {
                channel.select(Channel::AllTabs);
            }
            if !is_panels_view_focused {
                channel.select(Channel::Global);
            }
            ReducePlan {
                reaches_editor: true,
                focus_panel: !is_editor_focused,
                focus_panels_view: !is_panels_view_focused,
                channel,
            }
        },
        EditorActionKind::Click => ReducePlan { reaches_editor: true, ..silence },
        EditorActionKind::KeyUp => {
            if is_editor_focused && is_panel_focused {
                ReducePlan {
                    reaches_editor: true,
                    channel: ChannelSelection::Select(Channel::follow_tab(tab_id)),
                    ..silence
                }
            } else {
                silence
            }
        },
        EditorActionKind::KeyDown => {
            if is_editor_focused && is_panel_focused && key_repeats > 0 {
                ReducePlan {
                    reaches_editor: true,
                    channel: ChannelSelection::Select(Channel::follow_tab(tab_id)),
                    ..silence
                }
            } else {
                silence
            }
        },
    }
}

/// What a key press aimed at an editor does: the editor reacts only when it
/// has the focus (its panel is focused and it is the active tab); then the
/// key reaches its text `repeats` times, the scroll may change, and the tab
/// is told when the key reached the text.  An editor without the focus
/// ignores the key: nothing reaches it, nothing scrolls, nobody is told.
pub struct KeyDownReduce {
    pub repeats: usize,
    pub scroll_y: Option<i32>,
    pub channel: ChannelSelection,
}

pub open spec fn key_down_reduce_spec(
    tab_id: TabId,
    is_panel_focused: bool,
    is_editor_focused: bool,
    key: KeyPress,
    current_scroll: i32,
    lines_jump: i32,
    min_height: i32,
) -> (usize, Option<i32>, ChannelSelection) {
    if is_editor_focused && is_panel_focused {
        let repeats = key_down_repeats(key);
        (
            repeats,
            key_down_scroll(key, current_scroll, lines_jump, min_height),
            if repeats > 0 {
                ChannelSelection::Select(Channel::Tab { tab_id })
            } else {
                ChannelSelection::Silence
            },
        )
    } else {
        (0, None, ChannelSelection::Silence)
    }
}

pub fn reduce_key_down(
    tab_id: TabId,
    is_panel_focused: bool,
    is_editor_focused: bool,
    key: KeyPress,
    current_scroll: i32,
    lines_jump: i32,
    min_height: i32,
) -> (plan: KeyDownReduce)
    requires
        is_editor_focused && is_panel_focused ==> min_height <= 0,
        is_editor_focused && is_panel_focused && key.alt && key.arrow == Some(Arrow::Up) ==> i32::MIN
            <= current_scroll + lines_jump <= i32::MAX,
        is_editor_focused && is_panel_focused && key.alt && key.arrow == Some(Arrow::Down) ==> i32::MIN
            <= current_scroll - lines_jump <= i32::MAX,
    ensures
        (plan.repeats, plan.scroll_y, plan.channel) == key_down_reduce_spec(
            tab_id,
            is_panel_focused,
            is_editor_focused,
            key,
            current_scroll,
            lines_jump,
            min_height,
        ),
{
    if !(is_editor_focused && is_panel_focused) {
        return KeyDownReduce { repeats: 0, scroll_y: None, channel: ChannelSelection::Silence };
    }
    let plan = plan_key_down(key, current_scroll, lines_jump, min_height);
    let channel = if plan.repeats > 0 {
        ChannelSelection::Select(Channel::follow_tab(tab_id))
    } else {
        ChannelSelection::Silence
    };
    KeyDownReduce { repeats: plan.repeats, scroll_y: plan.scroll_y, channel }
}

/// An Alt-arrow scroll stays within the document: between `min_height` (the
/// lowest scroll) and 0.  Alt Down never scrolls up and Alt Up never scrolls
/// down, starting from a scroll inside that range; and a jump that stays in
/// the range moves by exactly `lines_jump`.
pub proof fn law_key_scroll_within_document(key: KeyPress, current_scroll: i32, lines_jump: i32, min_height: i32)
    requires
        min_height <= 0,
    ensures
        key_down_scroll(key, current_scroll, lines_jump, min_height) matches Some(y) ==> min_height <= y <= 0,
        key.alt && key.arrow == Some(Arrow::Down) && min_height <= current_scroll <= 0 && lines_jump >= 0
            ==> (key_down_scroll(key, current_scroll, lines_jump, min_height) matches Some(y) && y <= current_scroll),
        key.alt && key.arrow == Some(Arrow::Up) && min_height <= current_scroll <= 0 && lines_jump >= 0
            ==> (key_down_scroll(key, current_scroll, lines_jump, min_height) matches Some(y) && y >= current_scroll),
        key.alt && key.arrow == Some(Arrow::Down) && min_height <= current_scroll - lines_jump <= 0
            ==> key_down_scroll(key, current_scroll, lines_jump, min_height) == Some((current_scroll - lines_jump) as i32),
        key.alt && key.arrow == Some(Arrow::Up) && min_height <= current_scroll + lines_jump <= 0
            ==> key_down_scroll(key, current_scroll, lines_jump, min_height) == Some((current_scroll + lines_jump) as i32),
        !key.alt ==> key_down_scroll(key, current_scroll, lines_jump, min_height) is None,
{
}

/// A mouse move reaches an editor exactly when the editor and its panel have
/// the focus (a drag in the focused editor extends its selection), and it
/// never moves the focus nor tells any part of the interface.
pub proof fn law_mouse_move_reaches_focused_editor(
    tab_id: TabId,
    is_panels_view_focused: bool,
    is_panel_focused: bool,
    is_editor_focused: bool,
    key_repeats: usize,
)
    ensures
        ({
            let r = reduce_spec(
                tab_id,
                EditorActionKind::MouseMove,
                is_panels_view_focused,
                is_panel_focused,
                is_editor_focused,
                key_repeats,
            );
            &&& r.0 == (is_panel_focused && is_editor_focused)
            &&& !r.1 && !r.2
            &&& r.3 == ChannelSelection::Silence
        }),
{
}

} // verus!
