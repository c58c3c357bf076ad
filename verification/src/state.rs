//! The state of the editor as a list of panels, each a list of tabs that are
//! found by their position.
//!
//! The submodules hold the state as the application keeps it with tab and
//! panel identifiers, a dock tree of panels, commands and views.
use vstd::prelude::*;
use crate::hooks::use_editable::EditorData;
use crate::paths::{path_file_name, path_file_name_of};
use crate::rope::{rope_chars, rope_clone};
use ropey::Rope;

pub mod app;
pub mod editor;
pub mod file_icons;
pub mod commands;
pub mod panels_tabs;
pub mod views;

verus! {

// ---------------------------------------------------------------------------
// Views and side panels
// ---------------------------------------------------------------------------

#[derive(Clone, Copy, PartialEq, Eq, Debug, Structural)]
pub enum EditorView {
    CodeEditor,
    FilesExplorer,
    Commander,
}

impl Default for EditorView {
    fn default() -> (view: EditorView)
        ensures
            view == EditorView::CodeEditor,
    {
        EditorView::CodeEditor
    }
}

pub open spec fn editor_view_name(view: EditorView) -> Seq<char> {
    match view {
        EditorView::CodeEditor => "Code Editor"@,
        EditorView::FilesExplorer => "Files Explorer"@,
        EditorView::Commander => "Commander"@,
    }
}

impl EditorView {
    /// The name under which the view is shown.
    pub fn to_string(&self) -> (name: String)
        ensures
            name@ == editor_view_name(*self),
    {
        match self {
            EditorView::CodeEditor => "Code Editor",
            EditorView::FilesExplorer => "Files Explorer",
            EditorView::Commander => "Commander",
        }.to_owned()
    }
}

#[derive(Clone, Copy, PartialEq, Eq, Debug, Structural)]
pub enum EditorSidePanel {
    FileExplorer,
}

impl Default for EditorSidePanel {
    fn default() -> (side_panel: EditorSidePanel)
        ensures
            side_panel == EditorSidePanel::FileExplorer,
    {
        EditorSidePanel::FileExplorer
    }
}

// ---------------------------------------------------------------------------
// Tabs
// ---------------------------------------------------------------------------

/// What a tab of a panel shows.
pub enum PanelTab {
    TextEditor(EditorData),
    Config,
    Welcome,
}

/// What describes a tab: the identifier of its content, its title, and
/// whether it holds unsaved changes.
#[derive(PartialEq, Eq)]
pub struct PanelTabData {
    pub edited: bool,
    pub title: String,
    pub id: String,
}

/// The identifier of what a tab shows: the path of a document, `config` or `welcome`.
pub open spec fn tab_content_id(tab: PanelTab) -> Seq<char> {
    match tab {
        PanelTab::TextEditor(editor) => editor.path_spec(),
        PanelTab::Config => "config"@,
        PanelTab::Welcome => "welcome"@,
    }
}

/// The title of a tab: the file name of a document (none for a path without
/// one), `Config` or `Welcome`.
pub open spec fn tab_title(tab: PanelTab) -> Option<Seq<char>> {
    match tab {
        PanelTab::TextEditor(editor) => path_file_name_of(editor.path_spec()),
        PanelTab::Config => Some("Config"@),
        PanelTab::Welcome => Some("Welcome"@),
    }
}

pub open spec fn tab_edited(tab: PanelTab) -> bool {
    match tab {
        PanelTab::TextEditor(editor) => editor.edited_spec(),
        _ => false,
    }
}

pub open spec fn tab_data_matches(tab: PanelTab, data: PanelTabData) -> bool {
    &&& data.id@ == tab_content_id(tab)
    &&& Some(data.title@) == tab_title(tab)
    &&& data.edited == tab_edited(tab)
}

impl PanelTab {
    /// The identifier of what the tab shows.
    pub fn content_id(&self) -> (id: String)
        ensures
            id@ == tab_content_id(*self),
    {
        match self {
            PanelTab::TextEditor(editor) => editor.path().clone(),
            PanelTab::Config => "config".to_owned(),
            PanelTab::Welcome => "welcome".to_owned(),
        }
    }

    /// The description of the tab.  A document's title is the file name of
    /// its path, so the path must have one.
    pub fn get_data(&self) -> (data: PanelTabData)
        requires
            tab_title(*self) is Some,
        ensures
            tab_data_matches(*self, data),
    {
        match self {
            PanelTab::Config => PanelTabData {
                id: "config".to_owned(),
                title: "Config".to_owned(),
                edited: false,
            },
            PanelTab::TextEditor(editor) => PanelTabData {
                id: editor.path().clone(),
                title: path_file_name(editor.path()).unwrap(),
                edited: editor.is_edited(),
            },
            PanelTab::Welcome => PanelTabData {
                id: "welcome".to_owned(),
                title: "Welcome".to_owned(),
                edited: false,
            },
        }
    }

    /// The description of the tab, or `None` for a document whose path has no
    /// file name.
    pub fn try_get_data(&self) -> (data: Option<PanelTabData>)
        ensures
            data is Some <==> tab_title(*self) is Some,
            data matches Some(d) ==> tab_data_matches(*self, d),
    {
        if let PanelTab::TextEditor(editor) = self {
            if path_file_name(editor.path()).is_none() {
                return None;
            }
        }
        Some(self.get_data())
    }

    pub fn as_text_editor(&self) -> (editor: Option<&EditorData>)
        ensures
            editor matches Some(e) ==> *self == PanelTab::TextEditor(*e),
            editor is None ==> !(*self is TextEditor),
    {
        match self {
            PanelTab::TextEditor(editor_data) => Some(editor_data),
            _ => None,
        }
    }
    pub fn as_text_editor_mut(&mut self) -> (editor: Option<&mut EditorData>)
        ensures
            editor matches Some(e) ==> *old(self) == PanelTab::TextEditor(*e) && *final(self)
                == PanelTab::TextEditor(*final(e)),
            editor is None ==> !(*old(self) is TextEditor) && *final(self) == *old(self),
    {
        match self {
            PanelTab::TextEditor(editor_data) => Some(editor_data),
            _ => None,
        }
    }
}

// ---------------------------------------------------------------------------
// Panels
// ---------------------------------------------------------------------------

/// The tabs of a panel and the position of the one that is shown.
pub struct Panel {
    pub active_tab: Option<usize>,
    pub tabs: Vec<PanelTab>,
}

/// The active tab, when there is one, is a tab of the panel.
pub open spec fn active_within(active_tab: Option<usize>, len: int) -> bool {
    match active_tab {
        Some(a) => a < len,
        None => true,
    }
}

impl Panel {
    pub fn new() -> (panel: Self)
        ensures
            panel.active_tab is None,
            panel.tabs@.len() == 0,
    {
        Panel { active_tab: None, tabs: Vec::new() }
    }

    pub fn active_tab(&self) -> (tab: Option<usize>)
        ensures
            tab == self.active_tab,
    {
        self.active_tab
    }

    pub fn tab(&self, editor: usize) -> (tab: &PanelTab)
        requires
            editor < self.tabs@.len(),
        ensures
            *tab == self.tabs@[editor as int],
    {
        &self.tabs[editor]
    }

    pub fn tabs(&self) -> (tabs: &[PanelTab])
        ensures
            tabs@ == self.tabs@,
    {
        self.tabs.as_slice()
    }

    pub fn set_active_tab(&mut self, active_tab: usize)
        ensures
            final(self).active_tab == Some(active_tab),
            final(self).tabs@ == old(self).tabs@,
    {
        self.active_tab = Some(active_tab);
    }
}

// ---------------------------------------------------------------------------
// The positions of tabs after a change
// ---------------------------------------------------------------------------

/// The position of the first tab that shows the content `id`.
pub open spec fn find_tab(tabs: Seq<PanelTab>, id: Seq<char>) -> Option<int>
    decreases tabs.len(),
{
    if tabs.len() == 0 {
        None
    } else {
        match find_tab(tabs.drop_last(), id) {
            Some(i) => Some(i),
            None => if tab_content_id(tabs.last()) == id {
                Some(tabs.len() - 1)
            } else {
                None
            },
        }
    }
}

/// The active tab after the tab at `tab` closes in a panel of `len` tabs: a
/// closed active tab passes the focus to the next tab, or else to the
/// previous one; an active tab after the closed one moves back by one.
pub open spec fn active_after_close(active_tab: Option<usize>, tab: usize, len: nat) -> Option<usize> {
    match active_tab {
        None => None,
        Some(active) => if active == tab {
            if tab + 1 < len {
                Some(tab)
            } else if tab > 0 {
                Some((tab - 1) as usize)
            } else {
                None
            }
        } else if active >= tab {
            Some((active - 1) as usize)
        } else {
            Some(active)
        },
    }
}

/// The position of the first tab with the given content, found by a walk
/// over the tabs.
fn position_of_content(tabs: &Vec<PanelTab>, id: &String) -> (pos: Option<usize>)
    ensures
        match find_tab(tabs@, id@) {
            Some(i) => pos == Some(i as usize),
            None => pos is None,
        },
{
    let mut k: usize = 0;
    while k < tabs.len()
        invariant
            k <= tabs@.len(),
            find_tab(tabs@.take(k as int), id@) is None,
        decreases tabs@.len() - k,
    {
        let found = tabs[k].content_id() == *id;
        proof {
            assert(tabs@.take(k + 1).drop_last() =~= tabs@.take(k as int));
        }
        if found {
            proof {
                lemma_find_tab_prefix(tabs@, id@, k + 1);
            }
            return Some(k);
        }
        k = k + 1;
    }
    proof {
        assert(tabs@.take(k as int) =~= tabs@);
    }
    None
}

/// A tab found in a prefix of the tabs is found at the same position in all
/// of them.
proof fn lemma_find_tab_prefix(tabs: Seq<PanelTab>, id: Seq<char>, n: int)
    requires
        0 <= n <= tabs.len(),
        find_tab(tabs.take(n), id) is Some,
    ensures
        find_tab(tabs, id) == find_tab(tabs.take(n), id),
    decreases tabs.len() - n,
{
    if n < tabs.len() {
        assert(tabs.take(n + 1).drop_last() =~= tabs.take(n));
        lemma_find_tab_prefix(tabs, id, n + 1);
    } else {
        assert(tabs.take(n) =~= tabs);
    }
}

/// The position that `find_tab` gives is a tab with that content, and no tab
/// before it has that content.
pub proof fn lemma_find_tab_first(tabs: Seq<PanelTab>, id: Seq<char>)
    ensures
        match find_tab(tabs, id) {
            Some(i) => 0 <= i < tabs.len() && tab_content_id(tabs[i]) == id && forall|j: int|
                0 <= j < i ==> tab_content_id(#[trigger] tabs[j]) != id,
            None => forall|j: int| 0 <= j < tabs.len() ==> tab_content_id(#[trigger] tabs[j]) != id,
        },
    decreases tabs.len(),
{
    if tabs.len() > 0 {
        let rest = tabs.drop_last();
        lemma_find_tab_first(rest, id);
        assert forall|j: int| 0 <= j < rest.len() implies #[trigger] rest[j] == tabs[j] by {}
        match find_tab(rest, id) {
            Some(i) => {
                assert(rest[i] == tabs[i]);
                assert forall|j: int| 0 <= j < i implies tab_content_id(#[trigger] tabs[j]) != id by {
                    assert(rest[j] == tabs[j]);
                }
            },
            None => {
                assert forall|j: int| 0 <= j < tabs.len() - 1 implies tab_content_id(#[trigger] tabs[j]) != id by {
                    assert(rest[j] == tabs[j]);
                }
            },
        }
    }
}

// ---------------------------------------------------------------------------
// Channels of the application state
// ---------------------------------------------------------------------------

/// What a change of the application state affects, and so which parts of the
/// interface are redrawn.
#[derive(Clone, Copy, PartialEq, Eq, Debug, Structural)]
pub enum Channel {
    /// Global components
    Global,
    /// All the tabs
    AllTabs,
    /// One tab
    Tab { panel_index: usize, editor_index: usize },
    /// The active tab only
    ActiveTab,
}

/// The channels of the tabs of the panel at `panel_index`, which has `len` tabs.
pub open spec fn panel_tab_channels(panel_index: usize, len: nat) -> Seq<Channel> {
    Seq::new(len, |e: int| Channel::Tab { panel_index, editor_index: e as usize })
}

/// The channels of all the tabs of the first `n` panels, panel by panel.
pub open spec fn tab_channels(panels: Seq<Panel>, n: nat) -> Seq<Channel>
    decreases n,
{
    if n == 0 {
        Seq::empty()
    } else {
        tab_channels(panels, (n - 1) as nat) + panel_tab_channels(
            (n - 1) as usize,
            panels[n - 1].tabs@.len(),
        )
    }
}

/// The channels that a change on `channel` notifies: all the tabs notify
/// every tab and the active one; a tab notifies the active tab too when it is
/// the active tab of the focused panel.
pub open spec fn derived_channels(channel: Channel, panels: Seq<Panel>, focused_panel: usize) -> Seq<Channel> {
    match channel {
        Channel::AllTabs => seq![Channel::AllTabs, Channel::ActiveTab] + tab_channels(panels, panels.len()),
        Channel::Tab { panel_index, editor_index } => if focused_panel == panel_index
            && panels[panel_index as int].active_tab == Some(editor_index) {
            seq![channel, Channel::ActiveTab]
        } else {
            seq![channel]
        },
        _ => seq![channel],
    }
}

impl Channel {
    pub fn follow_tab(panel: usize, editor: usize) -> (channel: Self)
        ensures
            channel == (Channel::Tab { panel_index: panel, editor_index: editor }),
    {
        Channel::Tab { panel_index: panel, editor_index: editor }
    }

    /// The channels that a change on this channel notifies.
    pub fn derive_channel(self, app_state: &AppState) -> (channels: Vec<Channel>)
        requires
            app_state.wf(),
        ensures
            channels@ == derived_channels(self, app_state.panels@, app_state.focused_panel),
    {
        match self {
            Channel::AllTabs => {
                let mut channels = vec![self, Channel::ActiveTab];
                let mut p: usize = 0;
                while p < app_state.panels.len()
                    invariant
                        p <= app_state.panels@.len(),
                        channels@ == seq![Channel::AllTabs, Channel::ActiveTab] + tab_channels(
                            app_state.panels@,
                            p as nat,
                        ),
                    decreases app_state.panels@.len() - p,
                {
                    let n = app_state.panels[p].tabs.len();
                    let ghost before = channels@;
                    let mut e: usize = 0;
                    while e < n
                        invariant
                            p < app_state.panels@.len(),
                            n == app_state.panels@[p as int].tabs@.len(),
                            e <= n,
                            channels@ == before + panel_tab_channels(p, e as nat),
                        decreases n - e,
                    {
                        channels.push(Channel::Tab { panel_index: p, editor_index: e });
                        proof {
                            assert(panel_tab_channels(p, (e + 1) as nat) =~= panel_tab_channels(
                                p,
                                e as nat,
                            ).push(Channel::Tab { panel_index: p, editor_index: e }));
                        }
                        e = e + 1;
                    }
                    proof {
                        assert(tab_channels(app_state.panels@, (p + 1) as nat) == tab_channels(
                            app_state.panels@,
                            p as nat,
                        ) + panel_tab_channels(p, n as nat));
                        assert(channels@ =~= seq![Channel::AllTabs, Channel::ActiveTab] + tab_channels(
                            app_state.panels@,
                            (p + 1) as nat,
                        ));
                    }
                    p = p + 1;
                }
                channels
            },
            Channel::Tab { panel_index, editor_index } => {
                let mut channels = vec![self];
                if app_state.focused_panel == panel_index {
                    if app_state.panels[panel_index].active_tab == Some(editor_index) {
                        channels.push(Channel::ActiveTab);
                    }
                }
                proof {
                    assert(channels@ =~= derived_channels(self, app_state.panels@, app_state.focused_panel));
                }
                channels
            },
            _ => {
                let channels = vec![self];
                proof {
                    assert(channels@ =~= derived_channels(self, app_state.panels@, app_state.focused_panel));
                }
                channels
            },
        }
    }
}

// ---------------------------------------------------------------------------
// The application state
// ---------------------------------------------------------------------------

/// The panels of the editor, the focused one, the focused view and the side
/// panel.  (The font metrics and the running language servers live beside
/// it, in the application.)
pub struct AppState {
    pub previous_focused_view: Option<EditorView>,
    pub focused_view: EditorView,
    pub focused_panel: usize,
    pub panels: Vec<Panel>,
    pub side_panel: Option<EditorSidePanel>,
}

/// The tabs of a panel after `push_tab`: unchanged when one already shows the
/// content, else with the new tab at the end.
pub open spec fn pushed_tabs(tabs: Seq<PanelTab>, tab: PanelTab) -> Seq<PanelTab> {
    match find_tab(tabs, tab_content_id(tab)) {
        Some(_) => tabs,
        None => tabs.push(tab),
    }
}

/// The position of the tab that shows the content of `tab` after `push_tab`.
pub open spec fn pushed_position(tabs: Seq<PanelTab>, tab: PanelTab) -> int {
    match find_tab(tabs, tab_content_id(tab)) {
        Some(i) => i,
        None => tabs.len() as int,
    }
}

/// No two tabs show the same content.
pub open spec fn distinct_contents(tabs: Seq<PanelTab>) -> bool {
    forall|i: int, j: int|
        0 <= i < j < tabs.len() ==> tab_content_id(#[trigger] tabs[i]) != tab_content_id(
            #[trigger] tabs[j],
        )
}

impl AppState {
    /// There is a panel, the focused panel is one of them, and every active
    /// tab is a tab of its panel.
    pub open spec fn wf(&self) -> bool {
        &&& self.panels@.len() > 0
        &&& self.focused_panel < self.panels@.len()
        &&& forall|p: int| 0 <= p < self.panels@.len() ==> active_within(
            #[trigger] self.panels@[p].active_tab,
            self.panels@[p].tabs@.len() as int,
        )
    }

    /// Whether the state is well formed (what most operations ask of it).
    pub fn is_consistent(&self) -> (consistent: bool)
        ensures
            consistent == self.wf(),
    {
        if self.panels.len() == 0 || self.focused_panel >= self.panels.len() {
            return false;
        }
        let mut p: usize = 0;
        while p < self.panels.len()
            invariant
                p <= self.panels@.len(),
                forall|q: int| 0 <= q < p ==> active_within(#[trigger] self.panels@[q].active_tab, self.panels@[q].tabs@.len() as int),
            decreases self.panels.len() - p,
        {
            match self.panels[p].active_tab {
                Some(active) => {
                    if active >= self.panels[p].tabs.len() {
                        return false;
                    }
                },
                None => {},
            }
            p = p + 1;
        }
        true
    }

    /// One empty panel with the focus, the code editor focused, and the file
    /// explorer shown.
    pub fn new() -> (state: Self)
        ensures
            state.wf(),
            state.previous_focused_view is None,
            state.focused_view == EditorView::CodeEditor,
            state.focused_panel == 0,
            state.panels@.len() == 1,
            state.panels@[0].active_tab is None,
            state.panels@[0].tabs@.len() == 0,
            state.side_panel == Some(EditorSidePanel::FileExplorer),
    {
        AppState {
            previous_focused_view: None,
            focused_view: EditorView::default(),
            focused_panel: 0,
            panels: vec![Panel::new()],
            side_panel: Some(EditorSidePanel::default()),
        }
    }

    /// Hides the side panel when it is the one shown, else shows it.
    pub fn toggle_side_panel(&mut self, side_panel: EditorSidePanel)
        ensures
            final(self).side_panel == if old(self).side_panel == Some(side_panel) {
                None
            } else {
                Some(side_panel)
            },
            final(self).previous_focused_view == old(self).previous_focused_view,
            final(self).focused_view == old(self).focused_view,
            final(self).focused_panel == old(self).focused_panel,
            final(self).panels@ == old(self).panels@,
    {
        if let Some(current_side_panel) = self.side_panel {
            if current_side_panel == side_panel {
                self.side_panel = None;
                return;
            }
        }
        self.side_panel = Some(side_panel);
    }

    /// Focuses a view and remembers the one it leaves.
    pub fn set_focused_view(&mut self, focused_view: EditorView)
        ensures
            final(self).focused_view == focused_view,
            final(self).previous_focused_view == Some(old(self).focused_view),
            final(self).focused_panel == old(self).focused_panel,
            final(self).panels@ == old(self).panels@,
            final(self).side_panel == old(self).side_panel,
    {
        self.previous_focused_view = Some(self.focused_view);
        self.focused_view = focused_view;
    }

    pub fn focused_view(&self) -> (view: &EditorView)
        ensures
            *view == self.focused_view,
    {
        &self.focused_view
    }

    /// Goes back to the remembered view, which is then forgotten; without one
    /// nothing changes.
    pub fn set_focused_view_to_previous(&mut self)
        ensures
            match old(self).previous_focused_view {
                Some(previous) => final(self).focused_view == previous
                    && final(self).previous_focused_view is None,
                None => final(self).focused_view == old(self).focused_view
                    && final(self).previous_focused_view is None,
            },
            final(self).focused_panel == old(self).focused_panel,
            final(self).panels@ == old(self).panels@,
            final(self).side_panel == old(self).side_panel,
    {
        if let Some(previous_focused_view) = self.previous_focused_view {
            self.focused_view = previous_focused_view;
            self.previous_focused_view = None;
        }
    }

    /// The focused view, the focused panel and that panel's active tab.
    pub fn get_focused_data(&self) -> (data: (EditorView, usize, Option<usize>))
        requires
            self.wf(),
        ensures
            data == (self.focused_view, self.focused_panel, self.panels@[self.focused_panel as int].active_tab),
    {
        (self.focused_view, self.focused_panel, self.panels[self.focused_panel].active_tab)
    }

    /// The path and a copy of the text of a tab that shows a document;
    /// `None` for a tab that shows something else.
    pub fn editor_mut_data(&self, panel: usize, editor_id: usize) -> (data: Option<(String, Rope)>)
        requires
            panel < self.panels@.len(),
            editor_id < self.panels@[panel as int].tabs@.len(),
        ensures
            match self.panels@[panel as int].tabs@[editor_id as int] {
                PanelTab::TextEditor(editor) => data matches Some((path, rope)) && path@ == editor.path_spec()
                    && rope_chars(rope) == editor.text(),
                _ => data is None,
            },
    {
        match self.panels[panel].tabs[editor_id].as_text_editor() {
            Some(editor) => Some((editor.path().clone(), rope_clone(editor.rope()))),
            None => None,
        }
    }

    pub fn focused_panel(&self) -> (panel: usize)
        ensures
            panel == self.focused_panel,
    {
        self.focused_panel
    }

    pub fn panels(&self) -> (panels: &[Panel])
        ensures
            panels@ == self.panels@,
    {
        self.panels.as_slice()
    }

    pub fn panel(&self, panel: usize) -> (p: &Panel)
        requires
            panel < self.panels@.len(),
        ensures
            *p == self.panels@[panel as int],
    {
        &self.panels[panel]
    }

    pub fn panel_mut(&mut self, panel: usize) -> (p: &mut Panel)
        requires
            panel < old(self).panels@.len(),
        ensures
            *p == old(self).panels@[panel as int],
            final(self).panels@ == old(self).panels@.update(panel as int, *final(p)),
            final(self).focused_panel == old(self).focused_panel,
            final(self).focused_view == old(self).focused_view,
            final(self).previous_focused_view == old(self).previous_focused_view,
            final(self).side_panel == old(self).side_panel,
    {
        &mut self.panels[panel]
    }

    /// The document of a tab that shows one.
    pub fn editor(&self, panel: usize, editor_id: usize) -> (editor: &EditorData)
        requires
            panel < self.panels@.len(),
            editor_id < self.panels@[panel as int].tabs@.len(),
            self.panels@[panel as int].tabs@[editor_id as int] is TextEditor,
        ensures
            self.panels@[panel as int].tabs@[editor_id as int] == PanelTab::TextEditor(*editor),
    {
        self.panel(panel).tab(editor_id).as_text_editor().unwrap()
    }

    /// The document of a tab that shows one, to change it.
    pub fn editor_mut(&mut self, panel: usize, editor_id: usize) -> (editor: &mut EditorData)
        requires
            panel < old(self).panels@.len(),
            editor_id < old(self).panels@[panel as int].tabs@.len(),
            old(self).panels@[panel as int].tabs@[editor_id as int] is TextEditor,
        ensures
            old(self).panels@[panel as int].tabs@[editor_id as int] == PanelTab::TextEditor(*editor),
            final(self).panels@[panel as int].tabs@ == old(self).panels@[panel as int].tabs@.update(
                editor_id as int,
                PanelTab::TextEditor(*final(editor)),
            ),
            final(self).panels@.len() == old(self).panels@.len(),
            final(self).panels@[panel as int].active_tab == old(self).panels@[panel as int].active_tab,
            forall|q: int| 0 <= q < old(self).panels@.len() && q != panel ==> #[trigger] final(self).panels@[q]
                == old(self).panels@[q],
            final(self).focused_panel == old(self).focused_panel,
            final(self).focused_view == old(self).focused_view,
            final(self).previous_focused_view == old(self).previous_focused_view,
            final(self).side_panel == old(self).side_panel,
    {
        self.try_editor_mut(panel, editor_id).unwrap()
    }

    /// The document of a tab, to change it; `None` when the tab shows
    /// something else, and then nothing changes.
    pub fn try_editor_mut(&mut self, panel: usize, editor_id: usize) -> (editor: Option<&mut EditorData>)
        requires
            panel < old(self).panels@.len(),
            editor_id < old(self).panels@[panel as int].tabs@.len(),
        ensures
            editor matches Some(e) ==> old(self).panels@[panel as int].tabs@[editor_id as int]
                == PanelTab::TextEditor(*e),
            editor matches Some(e) ==> final(self).panels@[panel as int].tabs@ == old(
                self,
            ).panels@[panel as int].tabs@.update(editor_id as int, PanelTab::TextEditor(*final(e))),
            editor is None ==> !(old(self).panels@[panel as int].tabs@[editor_id as int] is TextEditor),
            editor is None ==> final(self).panels@[panel as int].tabs@ == old(self).panels@[panel as int].tabs@,
            final(self).panels@.len() == old(self).panels@.len(),
            final(self).panels@[panel as int].active_tab == old(self).panels@[panel as int].active_tab,
            forall|q: int| 0 <= q < old(self).panels@.len() && q != panel ==> #[trigger] final(self).panels@[q]
                == old(self).panels@[q],
            final(self).focused_panel == old(self).focused_panel,
            final(self).focused_view == old(self).focused_view,
            final(self).previous_focused_view == old(self).previous_focused_view,
            final(self).side_panel == old(self).side_panel,
    {
        let p = &mut self.panels[panel];
        let t = &mut p.tabs[editor_id];
        t.as_text_editor_mut()
    }

    pub fn set_focused_panel(&mut self, panel: usize)
        ensures
            final(self).focused_panel == panel,
            final(self).panels@ == old(self).panels@,
            final(self).focused_view == old(self).focused_view,
            final(self).previous_focused_view == old(self).previous_focused_view,
            final(self).side_panel == old(self).side_panel,
    {
        self.focused_panel = panel;
    }

    pub fn push_panel(&mut self, panel: Panel)
        ensures
            final(self).panels@ == old(self).panels@.push(panel),
            final(self).focused_panel == old(self).focused_panel,
            final(self).focused_view == old(self).focused_view,
            final(self).previous_focused_view == old(self).previous_focused_view,
            final(self).side_panel == old(self).side_panel,
    {
        self.panels.push(panel);
    }

    /// Opens a tab in a panel.  When a tab of the panel already shows the
    /// same content, no tab is added and that tab is the one focused.  With
    /// `focus`, the panel gets the focus and the tab becomes its active tab.
    pub fn push_tab(&mut self, tab: PanelTab, panel: usize, focus: bool)
        requires
            panel < old(self).panels@.len(),
        ensures
            final(self).panels@.len() == old(self).panels@.len(),
            final(self).panels@[panel as int].tabs@ == pushed_tabs(
                old(self).panels@[panel as int].tabs@,
                tab,
            ),
            focus ==> final(self).focused_panel == panel && final(self).panels@[panel as int].active_tab
                == Some(pushed_position(old(self).panels@[panel as int].tabs@, tab) as usize),
            !focus ==> final(self).focused_panel == old(self).focused_panel
                && final(self).panels@[panel as int].active_tab == old(self).panels@[panel as int].active_tab,
            forall|q: int| 0 <= q < old(self).panels@.len() && q != panel ==> #[trigger] final(self).panels@[q]
                == old(self).panels@[q],
            old(self).wf() ==> final(self).wf(),
            final(self).focused_view == old(self).focused_view,
            final(self).previous_focused_view == old(self).previous_focused_view,
            final(self).side_panel == old(self).side_panel,
    {
        let id = tab.content_id();
        let opened_tab = position_of_content(&self.panels[panel].tabs, &id);
        match opened_tab {
            Some(tab_index) => {
                if focus {
                    self.focused_panel = panel;
                    self.panels[panel].active_tab = Some(tab_index);
                }
            },
            None => {
                self.panels[panel].tabs.push(tab);
                if focus {
                    self.focused_panel = panel;
                    let last = self.panels[panel].tabs.len() - 1;
                    self.panels[panel].active_tab = Some(last);
                }
            },
        }
        proof {
            if old(self).wf() {
                assert forall|p: int| 0 <= p < self.panels@.len() implies active_within(
                    #[trigger] self.panels@[p].active_tab,
                    self.panels@[p].tabs@.len() as int,
                ) by {
                    assert(active_within(old(self).panels@[p].active_tab, old(self).panels@[p].tabs@.len() as int));
                    if p == panel {
                        lemma_find_tab_first(old(self).panels@[p].tabs@, id@);
                    }
                }
            }
        }
    }

    /// Closes the tab at `tab` of a panel and hands it back (the application
    /// tells its language server that the document closed).  The active tab
    /// of the panel moves as `active_after_close` says.
    pub fn close_tab(&mut self, panel: usize, tab: usize) -> (closed: PanelTab)
        requires
            panel < old(self).panels@.len(),
            tab < old(self).panels@[panel as int].tabs@.len(),
        ensures
            closed == old(self).panels@[panel as int].tabs@[tab as int],
            final(self).panels@.len() == old(self).panels@.len(),
            final(self).panels@[panel as int].tabs@ == old(self).panels@[panel as int].tabs@.remove(
                tab as int,
            ),
            final(self).panels@[panel as int].active_tab == active_after_close(
                old(self).panels@[panel as int].active_tab,
                tab,
                old(self).panels@[panel as int].tabs@.len(),
            ),
            forall|q: int| 0 <= q < old(self).panels@.len() && q != panel ==> #[trigger] final(self).panels@[q]
                == old(self).panels@[q],
            old(self).wf() ==> final(self).wf(),
            final(self).focused_panel == old(self).focused_panel,
            final(self).focused_view == old(self).focused_view,
            final(self).previous_focused_view == old(self).previous_focused_view,
            final(self).side_panel == old(self).side_panel,
    {
        if let Some(active_tab) = self.panels[panel].active_tab {
            let len = self.panels[panel].tabs.len();
            let prev_tab = tab > 0;
            let next_tab = tab + 1 < len;
            if active_tab == tab {
                self.panels[panel].active_tab = if next_tab {
                    Some(tab)
                } else if prev_tab {
                    Some(tab - 1)
                } else {
                    None
                };
            } else if active_tab >= tab {
                self.panels[panel].active_tab = Some(active_tab - 1);
            }
        }
        let closed = self.panels[panel].tabs.remove(tab);
        proof {
            if old(self).wf() {
                assert forall|p: int| 0 <= p < self.panels@.len() implies active_within(
                    #[trigger] self.panels@[p].active_tab,
                    self.panels@[p].tabs@.len() as int,
                ) by {
                    assert(active_within(old(self).panels@[p].active_tab, old(self).panels@[p].tabs@.len() as int));
                }
            }
        }
        closed
    }

    /// Closes a panel, unless it is the only one; the focus moves one panel
    /// back (it stays on the first).
    pub fn close_panel(&mut self, panel: usize)
        requires
            panel < old(self).panels@.len(),
        ensures
            old(self).panels@.len() > 1 ==> final(self).panels@ == old(self).panels@.remove(panel as int)
                && final(self).focused_panel == if old(self).focused_panel > 0 {
                (old(self).focused_panel - 1) as usize
            } else {
                0
            },
            old(self).panels@.len() <= 1 ==> final(self).panels@ == old(self).panels@
                && final(self).focused_panel == old(self).focused_panel,
            old(self).wf() ==> final(self).wf(),
            final(self).focused_view == old(self).focused_view,
            final(self).previous_focused_view == old(self).previous_focused_view,
            final(self).side_panel == old(self).side_panel,
    {
        if self.panels.len() > 1 {
            self.panels.remove(panel);
            if self.focused_panel > 0 {
                self.focused_panel = self.focused_panel - 1;
            }
            proof {
                if old(self).wf() {
                    assert forall|p: int| 0 <= p < self.panels@.len() implies active_within(
                        #[trigger] self.panels@[p].active_tab,
                        self.panels@[p].tabs@.len() as int,
                    ) by {
                        let q = if p < panel { p } else { p + 1 };
                        assert(self.panels@[p] == old(self).panels@[q]);
                        assert(active_within(old(self).panels@[q].active_tab, old(self).panels@[q].tabs@.len() as int));
                    }
                }
            }
        }
    }
}

// ---------------------------------------------------------------------------
// Laws
// ---------------------------------------------------------------------------

/// Closing a tab keeps the active tab of the panel a tab of the panel (or
/// none once the panel is empty).
pub proof fn law_close_tab_keeps_active_within(active_tab: Option<usize>, tab: usize, len: nat)
    requires
        active_within(active_tab, len as int),
        tab < len,
    ensures
        active_within(active_after_close(active_tab, tab, len), len - 1),
        active_tab is Some && len > 1 ==> active_after_close(active_tab, tab, len) is Some,
{
}

/// Closing a tab that is not the active one leaves the same tab active.
pub proof fn law_close_other_tab_keeps_active_tab(tabs: Seq<PanelTab>, active: usize, tab: usize)
    requires
        active < tabs.len(),
        tab < tabs.len(),
        active != tab,
    ensures
        active_after_close(Some(active), tab, tabs.len()) matches Some(a) && tabs.remove(tab as int)[a as int]
            == tabs[active as int],
{
}

/// After `push_tab`, the active position shows the pushed content.
pub proof fn law_push_tab_shows_content(tabs: Seq<PanelTab>, tab: PanelTab)
    ensures
        0 <= pushed_position(tabs, tab) < pushed_tabs(tabs, tab).len(),
        tab_content_id(pushed_tabs(tabs, tab)[pushed_position(tabs, tab)]) == tab_content_id(tab),
{
    lemma_find_tab_first(tabs, tab_content_id(tab));
}

/// `push_tab` never opens a second tab for the same content.
pub proof fn law_push_tab_keeps_contents_distinct(tabs: Seq<PanelTab>, tab: PanelTab)
    requires
        distinct_contents(tabs),
    ensures
        distinct_contents(pushed_tabs(tabs, tab)),
{
    lemma_find_tab_first(tabs, tab_content_id(tab));
    let pushed = pushed_tabs(tabs, tab);
    if find_tab(tabs, tab_content_id(tab)) is None {
        assert forall|i: int, j: int| 0 <= i < j < pushed.len() implies tab_content_id(
            #[trigger] pushed[i],
        ) != tab_content_id(#[trigger] pushed[j]) by {
            if j < tabs.len() {
                assert(pushed[i] == tabs[i] && pushed[j] == tabs[j]);
            } else {
                assert(pushed[i] == tabs[i]);
            }
        }
    }
}

/// Pushing the same content a second time changes nothing more.
pub proof fn law_push_tab_twice(tabs: Seq<PanelTab>, tab: PanelTab)
    ensures
        pushed_tabs(pushed_tabs(tabs, tab), tab) == pushed_tabs(tabs, tab),
        pushed_position(pushed_tabs(tabs, tab), tab) == pushed_position(tabs, tab),
{
    let id = tab_content_id(tab);
    if find_tab(tabs, id) is None {
        let pushed = tabs.push(tab);
        assert(pushed.drop_last() =~= tabs);
        assert(find_tab(pushed, id) == Some(tabs.len() as int));
    }
}

proof fn lemma_tab_channels_contain(panels: Seq<Panel>, n: nat, p: int, e: int)
    requires
        0 <= p < n <= panels.len(),
        0 <= e < panels[p].tabs@.len(),
    ensures
        tab_channels(panels, n).contains(Channel::Tab { panel_index: p as usize, editor_index: e as usize }),
    decreases n,
{
    let target = Channel::Tab { panel_index: p as usize, editor_index: e as usize };
    let prefix = tab_channels(panels, (n - 1) as nat);
    let last = panel_tab_channels((n - 1) as usize, panels[n - 1].tabs@.len());
    if p == n - 1 {
        assert(last[e] == target);
        assert((prefix + last)[prefix.len() + e] == target);
    } else {
        lemma_tab_channels_contain(panels, (n - 1) as nat, p, e);
        let i = choose|i: int| 0 <= i < prefix.len() && prefix[i] == target;
        assert((prefix + last)[i] == target);
    }
}

/// A change on all the tabs reaches every tab of every panel, and the
/// active tab.
pub proof fn law_all_tabs_reach_every_tab(panels: Seq<Panel>, focused_panel: usize, p: int, e: int)
    requires
        0 <= p < panels.len(),
        0 <= e < panels[p].tabs@.len(),
    ensures
        derived_channels(Channel::AllTabs, panels, focused_panel).contains(
            Channel::Tab { panel_index: p as usize, editor_index: e as usize },
        ),
        derived_channels(Channel::AllTabs, panels, focused_panel).contains(Channel::ActiveTab),
{
    let target = Channel::Tab { panel_index: p as usize, editor_index: e as usize };
    let head = seq![Channel::AllTabs, Channel::ActiveTab];
    let tail = tab_channels(panels, panels.len());
    lemma_tab_channels_contain(panels, panels.len(), p, e);
    let i = choose|i: int| 0 <= i < tail.len() && tail[i] == target;
    assert((head + tail)[2 + i] == target);
    assert((head + tail)[1] == Channel::ActiveTab);
}

} // verus!
