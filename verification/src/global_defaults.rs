//! The commands and keyboard shortcuts that the editor registers by default:
//! how a command matches what is typed in the commander, what toggling the
//! commander does, and which shortcut does what.
use vstd::prelude::*;
use vstd::string::StrSliceExecFns;
use crate::state::{AppState, EditorView};
use crate::state::views;

verus! {

/// What `str::to_lowercase` returns for a string with these characters.
pub uninterp spec fn lowercase_of(text: Seq<char>) -> Seq<char>;

/// `str::to_lowercase`: the text in lower case, by the Unicode lower case
/// mapping, which is named `lowercase_of` and not stated here.
#[verifier::external_body]
pub(crate) fn to_lowercase(text: &str) -> (lower: String)
    ensures
        lower@ == lowercase_of(text@),
{
    text.to_lowercase()
}

/// Whether `needle` occurs in `text` (the empty text occurs everywhere).
pub open spec fn contains_text(text: Seq<char>, needle: Seq<char>) -> bool {
    exists|i: int| 0 <= i <= text.len() - needle.len() && #[trigger] text.subrange(i, i + needle.len()) == needle
}

/// `str::contains` with a `&str` pattern.
pub fn str_contains(text: &str, needle: &str) -> (found: bool)
    ensures
        found == contains_text(text@, needle@),
{
    let n = text.unicode_len();
    let m = needle.unicode_len();
    if m > n {
        proof {
            assert forall|i: int| 0 <= i <= n - m implies #[trigger] text@.subrange(i, i + m) != needle@ by {}
        }
        return false;
    }
    if m == 0 {
        proof {
            assert(text@.subrange(0, 0 + needle@.len() as int) =~= needle@);
        }
        return true;
    }
    let mut i: usize = 0;
    while i <= n - m
        invariant
            n == text@.len(),
            m == needle@.len(),
            0 < m <= n,
            i <= n - m + 1,
            forall|k: int| 0 <= k < i ==> #[trigger] text@.subrange(k, k + m) != needle@,
        decreases n - m + 1 - i,
    {
        let mut j: usize = 0;
        let mut same = true;
        while j < m && same
            invariant
                n == text@.len(),
                m == needle@.len(),
                i + m <= n,
                j <= m,
                same ==> forall|l: int| 0 <= l < j ==> text@[i + l] == needle@[l],
                !same ==> text@.subrange(i as int, i + m) != needle@,
            decreases m - j + (if same { 1int } else { 0int }),
        {
            if text.get_char(i + j) != needle.get_char(j) {
                same = false;
                proof {
                    assert(text@.subrange(i as int, i + m)[j as int] != needle@[j as int]);
                }
            } else {
                j = j + 1;
            }
        }
        if same {
            proof {
                assert(text@.subrange(i as int, i + m) =~= needle@);
            }
            return true;
        }
        i = i + 1;
    }
    false
}

/// Whether a command whose text is `text` is listed for the input: the
/// input occurs in the text in lower case.
pub open spec fn text_matches_input(text: Seq<char>, input: Seq<char>) -> bool {
    contains_text(lowercase_of(text), input)
}

/// Whether a command whose text is `text` is listed for the input, case
/// aside: the input in lower case occurs in the text in lower case.
pub open spec fn text_matches_input_ignoring_case(text: Seq<char>, input: Seq<char>) -> bool {
    contains_text(lowercase_of(text), lowercase_of(input))
}

/// How the "Split Panel" command matches the input.
pub fn text_matches(text: &str, input: &str) -> (matches: bool)
    ensures
        matches == text_matches_input(text@, input@),
{
    let lower = to_lowercase(text);
    str_contains(lower.as_str(), input)
}

/// How the "Open Settings" and font size commands match the input.
pub fn text_matches_ignoring_case(text: &str, input: &str) -> (matches: bool)
    ensures
        matches == text_matches_input_ignoring_case(text@, input@),
{
    let lower = to_lowercase(text);
    let lower_input = to_lowercase(input);
    str_contains(lower.as_str(), lower_input.as_str())
}

/// The views after toggling the commander from `focused` with `previous`
/// remembered: from the commander back to the remembered view (forgotten
/// then), from anywhere else to the commander, remembering where it was.
pub open spec fn commander_toggled(focused: EditorView, previous: Option<EditorView>) -> (EditorView, Option<EditorView>) {
    if focused == EditorView::Commander {
        match previous {
            Some(p) => (p, None),
            None => (focused, None),
        }
    } else {
        (EditorView::Commander, Some(focused))
    }
}

/// The "Toggle Commander" command: it leaves the commander for the view
/// focused before it, or else focuses the commander.
pub fn toggle_commander(app_state: &mut AppState)
    ensures
        (final(app_state).focused_view, final(app_state).previous_focused_view) == commander_toggled(
            old(app_state).focused_view,
            old(app_state).previous_focused_view,
        ),
        final(app_state).panels@ == old(app_state).panels@,
        final(app_state).focused_panel == old(app_state).focused_panel,
        final(app_state).side_panel == old(app_state).side_panel,
{
    if app_state.focused_view == EditorView::Commander {
        app_state.set_focused_view_to_previous();
    } else {
        app_state.set_focused_view(EditorView::Commander);
    }
}

/// The keys that the default shortcuts react to.
#[derive(Clone, Copy, PartialEq, Eq, Debug, Structural)]
pub enum ShortcutKey {
    Escape,
    KeyE,
    Other,
}

/// What a default shortcut does.
#[derive(Clone, Copy, PartialEq, Eq, Debug, Structural)]
pub enum ShortcutAction {
    /// Runs the "Toggle Commander" command.
    ToggleCommander,
    /// Focuses a view.
    FocusView(views::EditorView),
}

pub open spec fn shortcut_action(key: ShortcutKey, only_alt: bool, focused_view: views::EditorView) -> Option<ShortcutAction> {
    match key {
        ShortcutKey::Escape => Some(ShortcutAction::ToggleCommander),
        ShortcutKey::KeyE => if only_alt {
            if focused_view == views::EditorView::FilesExplorer {
                Some(ShortcutAction::FocusView(views::EditorView::Panels))
            } else {
                Some(ShortcutAction::FocusView(views::EditorView::FilesExplorer))
            }
        } else {
            None
        },
        ShortcutKey::Other => None,
    }
}

/// The default shortcuts: `Esc` toggles the commander; `Alt E` moves the
/// focus between the files explorer and the panels.  `None` when the key is
/// not handled here (other handlers then get it).
pub fn default_shortcut(key: ShortcutKey, only_alt: bool, focused_view: views::EditorView) -> (action: Option<ShortcutAction>)
    ensures
        action == shortcut_action(key, only_alt, focused_view),
{
    match key {
        ShortcutKey::Escape => Some(ShortcutAction::ToggleCommander),
        ShortcutKey::KeyE => {
            if only_alt {
                if focused_view == views::EditorView::FilesExplorer {
                    Some(ShortcutAction::FocusView(views::EditorView::Panels))
                } else {
                    Some(ShortcutAction::FocusView(views::EditorView::FilesExplorer))
                }
            } else {
                None
            }
        },
        ShortcutKey::Other => None,
    }
}

/// A key that the panel shortcuts read.
#[derive(Clone, Copy, PartialEq, Eq, Debug, Structural)]
pub enum PanelKey {
    Plus,
    Minus,
    ArrowLeft,
    ArrowRight,
    KeyW,
    Other,
}

/// What a panel shortcut does.
#[derive(Clone, Copy, PartialEq, Eq, Debug, Structural)]
pub enum PanelAction {
    SplitPanel,
    ClosePanel,
    FocusPreviousPanel,
    FocusNextPanel,
    CloseTab,
}

pub open spec fn panel_action(key: PanelKey, only_alt: bool, control: bool) -> Option<PanelAction> {
    match key {
        PanelKey::Plus => if only_alt { Some(PanelAction::SplitPanel) } else { None },
        PanelKey::Minus => if only_alt { Some(PanelAction::ClosePanel) } else { None },
        PanelKey::ArrowLeft => if only_alt { Some(PanelAction::FocusPreviousPanel) } else { None },
        PanelKey::ArrowRight => if only_alt { Some(PanelAction::FocusNextPanel) } else { None },
        PanelKey::KeyW => if control { Some(PanelAction::CloseTab) } else { None },
        PanelKey::Other => None,
    }
}

/// The panel shortcuts: `Alt +` splits the panel, `Alt -` closes it,
/// `Alt Left` and `Alt Right` focus the previous and the next panel, and
/// `Ctrl W` closes the tab.  `None` when the key is not one of them.
pub fn panel_shortcut(key: PanelKey, only_alt: bool, control: bool) -> (action: Option<PanelAction>)
    ensures
        action == panel_action(key, only_alt, control),
{
    match key {
        PanelKey::Plus if only_alt => Some(PanelAction::SplitPanel),
        PanelKey::Minus if only_alt => Some(PanelAction::ClosePanel),
        PanelKey::ArrowLeft if only_alt => Some(PanelAction::FocusPreviousPanel),
        PanelKey::ArrowRight if only_alt => Some(PanelAction::FocusNextPanel),
        PanelKey::KeyW if control => Some(PanelAction::CloseTab),
        _ => None,
    }
}

/// Toggling the commander twice from another view comes back to that view,
/// with nothing remembered.
pub proof fn law_toggle_commander_twice(view: EditorView, previous: Option<EditorView>)
    requires
        view != EditorView::Commander,
    ensures
        commander_toggled(view, previous) == (EditorView::Commander, Some(view)),
        commander_toggled(EditorView::Commander, Some(view)) == (view, None::<EditorView>),
{
}

} // verus!
