//! The panes of the editor, each a list of tabs found by their position, and
//! which pane has the focus.
use vstd::prelude::*;
use crate::hooks::use_editable::EditorData;
use crate::paths::{path_file_name, path_file_name_of};
use crate::state::{active_after_close, active_within};

verus! {

/// What a tab of a pane shows.
pub enum PanelTab {
    TextEditor(EditorData),
    Config,
}

/// The identifier of what a tab shows: the path of a document, or `config`.
pub open spec fn tab_content_id(tab: PanelTab) -> Seq<char> {
    match tab {
        PanelTab::TextEditor(editor) => editor.path_spec(),
        PanelTab::Config => "config"@,
    }
}

/// The title of a tab: the file name of a document (none for a path without
/// one), or `Config`.
pub open spec fn tab_title(tab: PanelTab) -> Option<Seq<char>> {
    match tab {
        PanelTab::TextEditor(editor) => path_file_name_of(editor.path_spec()),
        PanelTab::Config => Some("Config"@),
    }
}

impl PanelTab {
    /// The identifier of what the tab shows.
    pub fn content_id(&self) -> (id: String)
        ensures
            id@ == tab_content_id(*self),
    {
        match self {
            PanelTab::TextEditor(editor) => editor.path().clone(),
            PanelTab::Config => "config".to_owned(),
        }
    }

    /// The identifier and the title of the tab.  A document's title is the
    /// file name of its path, so the path must have one.
    pub fn get_data(&self) -> (data: (String, String))
        requires
            tab_title(*self) is Some,
        ensures
            data.0@ == tab_content_id(*self),
            Some(data.1@) == tab_title(*self),
    {
        match self {
            PanelTab::Config => ("config".to_owned(), "Config".to_owned()),
            PanelTab::TextEditor(editor) => (
                editor.path().clone(),
                path_file_name(editor.path()).unwrap(),
            ),
        }
    }

    /// The identifier and the title of the tab, or `None` for a document
    /// whose path has no file name.
    pub fn try_get_data(&self) -> (data: Option<(String, String)>)
        ensures
            data is Some <==> tab_title(*self) is Some,
            data matches Some(d) ==> d.0@ == tab_content_id(*self) && Some(d.1@) == tab_title(*self),
    {
        if let PanelTab::TextEditor(editor) = self {
            if path_file_name(editor.path()).is_none() {
                return None;
            }
        }
        Some(self.get_data())
    }

    pub fn as_text_editor(&self) -> (editor: Option<&EditorData>)
        ensures
            editor matches Some(e) ==> *self == PanelTab::TextEditor(*e),
            editor is None ==> !(*self is TextEditor),
    {
        match self {
            PanelTab::TextEditor(editor_data) => Some(editor_data),
            _ => None,
        }
    }

    pub fn as_text_editor_mut(&mut self) -> (editor: Option<&mut EditorData>)
        ensures
            editor matches Some(e) ==> *old(self) == PanelTab::TextEditor(*e) && *final(self)
                == PanelTab::TextEditor(*final(e)),
            editor is None ==> !(*old(self) is TextEditor) && *final(self) == *old(self),
    {
        match self {
            PanelTab::TextEditor(editor_data) => Some(editor_data),
            _ => None,
        }
    }
}

/// The position of the first tab that shows the content `id`.
pub open spec fn find_tab(tabs: Seq<PanelTab>, id: Seq<char>) -> Option<int>
    decreases tabs.len(),
{
    if tabs.len() == 0 {
        None
    } else {
        match find_tab(tabs.drop_last(), id) {
            Some(i) => Some(i),
            None => if tab_content_id(tabs.last()) == id {
                Some(tabs.len() - 1)
            } else {
                None
            },
        }
    }
}

/// The tabs of a pane after `push_tab`: unchanged when one already shows the
/// content, else with the new tab at the end.
pub open spec fn pushed_tabs(tabs: Seq<PanelTab>, tab: PanelTab) -> Seq<PanelTab> {
    match find_tab(tabs, tab_content_id(tab)) {
        Some(_) => tabs,
        None => tabs.push(tab),
    }
}

/// The position of the tab that shows the content of `tab` after `push_tab`.
pub open spec fn pushed_position(tabs: Seq<PanelTab>, tab: PanelTab) -> int {
    match find_tab(tabs, tab_content_id(tab)) {
        Some(i) => i,
        None => tabs.len() as int,
    }
}

/// No two tabs show the same content.
pub open spec fn distinct_contents(tabs: Seq<PanelTab>) -> bool {
    forall|i: int, j: int|
        0 <= i < j < tabs.len() ==> tab_content_id(#[trigger] tabs[i]) != tab_content_id(
            #[trigger] tabs[j],
        )
}

/// The position that `find_tab` gives is a tab with that content, and no tab
/// before it has that content.
pub proof fn lemma_find_tab_first(tabs: Seq<PanelTab>, id: Seq<char>)
    ensures
        match find_tab(tabs, id) {
            Some(i) => 0 <= i < tabs.len() && tab_content_id(tabs[i]) == id && forall|j: int|
                0 <= j < i ==> tab_content_id(#[trigger] tabs[j]) != id,
            None => forall|j: int| 0 <= j < tabs.len() ==> tab_content_id(#[trigger] tabs[j]) != id,
        },
    decreases tabs.len(),
{
    if tabs.len() > 0 {
        let rest = tabs.drop_last();
        lemma_find_tab_first(rest, id);
        assert forall|j: int| 0 <= j < rest.len() implies #[trigger] rest[j] == tabs[j] by {}
        match find_tab(rest, id) {
            Some(i) => {
                assert(rest[i] == tabs[i]);
                assert forall|j: int| 0 <= j < i implies tab_content_id(#[trigger] tabs[j]) != id by {
                    assert(rest[j] == tabs[j]);
                }
            },
            None => {
                assert forall|j: int| 0 <= j < tabs.len() - 1 implies tab_content_id(#[trigger] tabs[j]) != id by {
                    assert(rest[j] == tabs[j]);
                }
            },
        }
    }
}

/// `push_tab` never opens a second tab for the same content in a pane.
pub proof fn law_push_tab_keeps_contents_distinct(tabs: Seq<PanelTab>, tab: PanelTab)
    requires
        distinct_contents(tabs),
    ensures
        distinct_contents(pushed_tabs(tabs, tab)),
        0 <= pushed_position(tabs, tab) < pushed_tabs(tabs, tab).len(),
        tab_content_id(pushed_tabs(tabs, tab)[pushed_position(tabs, tab)]) == tab_content_id(tab),
{
    lemma_find_tab_first(tabs, tab_content_id(tab));
    let pushed = pushed_tabs(tabs, tab);
    if find_tab(tabs, tab_content_id(tab)) is None {
        assert forall|i: int, j: int| 0 <= i < j < pushed.len() implies tab_content_id(
            #[trigger] pushed[i],
        ) != tab_content_id(#[trigger] pushed[j]) by {
            if j < tabs.len() {
                assert(pushed[i] == tabs[i] && pushed[j] == tabs[j]);
            } else {
                assert(pushed[i] == tabs[i]);
            }
        }
    }
}

proof fn lemma_find_tab_prefix(tabs: Seq<PanelTab>, id: Seq<char>, n: int)
    requires
        0 <= n <= tabs.len(),
        find_tab(tabs.take(n), id) is Some,
    ensures
        find_tab(tabs, id) == find_tab(tabs.take(n), id),
    decreases tabs.len() - n,
{
    if n < tabs.len() {
        assert(tabs.take(n + 1).drop_last() =~= tabs.take(n));
        lemma_find_tab_prefix(tabs, id, n + 1);
    } else {
        assert(tabs.take(n) =~= tabs);
    }
}

proof fn lemma_find_tab_within(tabs: Seq<PanelTab>, id: Seq<char>)
    ensures
        find_tab(tabs, id) matches Some(i) ==> 0 <= i < tabs.len(),
    decreases tabs.len(),
{
    if tabs.len() > 0 {
        lemma_find_tab_within(tabs.drop_last(), id);
    }
}

fn position_of_content(tabs: &Vec<PanelTab>, id: &String) -> (pos: Option<usize>)
    ensures
        match find_tab(tabs@, id@) {
            Some(i) => pos == Some(i as usize),
            None => pos is None,
        },
{
    let mut k: usize = 0;
    while k < tabs.len()
        invariant
            k <= tabs@.len(),
            find_tab(tabs@.take(k as int), id@) is None,
        decreases tabs@.len() - k,
    {
        let found = tabs[k].content_id() == *id;
        proof {
            assert(tabs@.take(k + 1).drop_last() =~= tabs@.take(k as int));
        }
        if found {
            proof {
                lemma_find_tab_prefix(tabs@, id@, k + 1);
            }
            return Some(k);
        }
        k = k + 1;
    }
    proof {
        assert(tabs@.take(k as int) =~= tabs@);
    }
    None
}

/// The tabs of a pane and the position of the one that is shown.
pub struct Panel {
    pub active_tab: Option<usize>,
    pub tabs: Vec<PanelTab>,
}

impl Panel {
    pub fn new() -> (panel: Self)
        ensures
            panel.active_tab is None,
            panel.tabs@.len() == 0,
    {
        Panel { active_tab: None, tabs: Vec::new() }
    }

    pub fn active_tab(&self) -> (tab: Option<usize>)
        ensures
            tab == self.active_tab,
    {
        self.active_tab
    }

    pub fn tab(&self, editor: usize) -> (tab: &PanelTab)
        requires
            editor < self.tabs@.len(),
        ensures
            *tab == self.tabs@[editor as int],
    {
        &self.tabs[editor]
    }

    pub fn tab_mut(&mut self, editor: usize) -> (tab: &mut PanelTab)
        requires
            editor < old(self).tabs@.len(),
        ensures
            *tab == old(self).tabs@[editor as int],
            final(self).tabs@ == old(self).tabs@.update(editor as int, *final(tab)),
            final(self).active_tab == old(self).active_tab,
    {
        &mut self.tabs[editor]
    }

    pub fn tabs(&self) -> (tabs: &[PanelTab])
        ensures
            tabs@ == self.tabs@,
    {
        self.tabs.as_slice()
    }

    pub fn set_active_tab(&mut self, active_tab: usize)
        ensures
            final(self).active_tab == Some(active_tab),
            final(self).tabs@ == old(self).tabs@,
    {
        self.active_tab = Some(active_tab);
    }
}

/// The panes, the one that has the focus, and whether the panes have the
/// focus at all.  (The font metrics live beside it, in the application.)
pub struct PanelsManager {
    pub is_focused: bool,
    pub focused_panel: usize,
    pub panes: Vec<Panel>,
}

impl PanelsManager {
    /// There is a pane, the focused pane is one of them, and every active
    /// tab is a tab of its pane.
    pub open spec fn wf(&self) -> bool {
        &&& self.panes@.len() > 0
        &&& self.focused_panel < self.panes@.len()
        &&& forall|p: int| 0 <= p < self.panes@.len() ==> active_within(
            #[trigger] self.panes@[p].active_tab,
            self.panes@[p].tabs@.len() as int,
        )
    }

    /// One empty pane, focused.
    pub fn new() -> (manager: Self)
        ensures
            manager.wf(),
            manager.is_focused,
            manager.focused_panel == 0,
            manager.panes@.len() == 1,
            manager.panes@[0].active_tab is None,
            manager.panes@[0].tabs@.len() == 0,
    {
        PanelsManager { is_focused: true, focused_panel: 0, panes: vec![Panel::new()] }
    }

    pub fn set_focused(&mut self, focused: bool)
        ensures
            final(self).is_focused == focused,
            final(self).focused_panel == old(self).focused_panel,
            final(self).panes@ == old(self).panes@,
    {
        self.is_focused = focused;
    }

    pub fn is_focused(&self) -> (focused: bool)
        ensures
            focused == self.is_focused,
    {
        self.is_focused
    }

    pub fn focused_panel(&self) -> (panel: usize)
        ensures
            panel == self.focused_panel,
    {
        self.focused_panel
    }

    /// Opens a tab in a pane.  When a tab of the pane already shows the same
    /// content, no tab is added and that tab is the one focused.  With
    /// `focus`, the pane gets the focus and the tab becomes its active tab.
    pub fn push_tab(&mut self, tab: PanelTab, panel: usize, focus: bool)
        requires
            panel < old(self).panes@.len(),
        ensures
            final(self).panes@[panel as int].tabs@ == pushed_tabs(old(self).panes@[panel as int].tabs@, tab),
            focus ==> final(self).focused_panel == panel && final(self).panes@[panel as int].active_tab
                == Some(pushed_position(old(self).panes@[panel as int].tabs@, tab) as usize),
            !focus ==> final(self).focused_panel == old(self).focused_panel
                && final(self).panes@[panel as int].active_tab == old(self).panes@[panel as int].active_tab,
            final(self).panes@.len() == old(self).panes@.len(),
            forall|q: int| 0 <= q < old(self).panes@.len() && q != panel ==> #[trigger] final(self).panes@[q]
                == old(self).panes@[q],
            old(self).wf() ==> final(self).wf(),
            final(self).is_focused == old(self).is_focused,
    {
        let id = tab.content_id();
        let opened_tab = position_of_content(&self.panes[panel].tabs, &id);
        match opened_tab {
            Some(tab_index) => {
                if focus {
                    self.focused_panel = panel;
                    self.panes[panel].active_tab = Some(tab_index);
                }
            },
            None => {
                self.panes[panel].tabs.push(tab);
                if focus {
                    self.focused_panel = panel;
                    let last = self.panes[panel].tabs.len() - 1;
                    self.panes[panel].active_tab = Some(last);
                }
            },
        }
        proof {
            if old(self).wf() {
                assert forall|p: int| 0 <= p < self.panes@.len() implies active_within(
                    #[trigger] self.panes@[p].active_tab,
                    self.panes@[p].tabs@.len() as int,
                ) by {
                    assert(active_within(old(self).panes@[p].active_tab, old(self).panes@[p].tabs@.len() as int));
                    if p == panel {
                        lemma_find_tab_within(old(self).panes@[p].tabs@, id@);
                    }
                }
            }
        }
    }

    /// Closes the tab at `editor` of a pane; the active tab of the pane moves
    /// as `active_after_close` says.
    pub fn close_editor(&mut self, panel: usize, editor: usize)
        requires
            panel < old(self).panes@.len(),
            editor < old(self).panes@[panel as int].tabs@.len(),
        ensures
            final(self).panes@.len() == old(self).panes@.len(),
            final(self).panes@[panel as int].tabs@ == old(self).panes@[panel as int].tabs@.remove(
                editor as int,
            ),
            final(self).panes@[panel as int].active_tab == active_after_close(
                old(self).panes@[panel as int].active_tab,
                editor,
                old(self).panes@[panel as int].tabs@.len(),
            ),
            forall|q: int| 0 <= q < old(self).panes@.len() && q != panel ==> #[trigger] final(self).panes@[q]
                == old(self).panes@[q],
            old(self).wf() ==> final(self).wf(),
            final(self).focused_panel == old(self).focused_panel,
            final(self).is_focused == old(self).is_focused,
    {
        if let Some(active_tab) = self.panes[panel].active_tab {
            let len = self.panes[panel].tabs.len();
            let prev_editor = editor > 0;
            let next_editor = editor + 1 < len;
            if active_tab == editor {
                self.panes[panel].active_tab = if next_editor {
                    Some(editor)
                } else if prev_editor {
                    Some(editor - 1)
                } else {
                    None
                };
            } else if active_tab >= editor {
                self.panes[panel].active_tab = Some(active_tab - 1);
            }
        }
        self.panes[panel].tabs.remove(editor);
        proof {
            if old(self).wf() {
                assert forall|p: int| 0 <= p < self.panes@.len() implies active_within(
                    #[trigger] self.panes@[p].active_tab,
                    self.panes@[p].tabs@.len() as int,
                ) by {
                    assert(active_within(old(self).panes@[p].active_tab, old(self).panes@[p].tabs@.len() as int));
                }
            }
        }
    }

    pub fn push_panel(&mut self, panel: Panel)
        ensures
            final(self).panes@ == old(self).panes@.push(panel),
            final(self).focused_panel == old(self).focused_panel,
            final(self).is_focused == old(self).is_focused,
    {
        self.panes.push(panel);
    }

    pub fn panels(&self) -> (panels: &[Panel])
        ensures
            panels@ == self.panes@,
    {
        self.panes.as_slice()
    }

    pub fn panel(&self, panel: usize) -> (p: &Panel)
        requires
            panel < self.panes@.len(),
        ensures
            *p == self.panes@[panel as int],
    {
        &self.panes[panel]
    }

    pub fn panel_mut(&mut self, panel: usize) -> (p: &mut Panel)
        requires
            panel < old(self).panes@.len(),
        ensures
            *p == old(self).panes@[panel as int],
            final(self).panes@ == old(self).panes@.update(panel as int, *final(p)),
            final(self).focused_panel == old(self).focused_panel,
            final(self).is_focused == old(self).is_focused,
    {
        &mut self.panes[panel]
    }

    pub fn set_focused_panel(&mut self, panel: usize)
        ensures
            final(self).focused_panel == panel,
            final(self).panes@ == old(self).panes@,
            final(self).is_focused == old(self).is_focused,
    {
        self.focused_panel = panel;
    }

    /// Closes a pane, unless it is the only one; the focus moves one pane
    /// back (it stays on the first).
    pub fn close_panel(&mut self, panel: usize)
        requires
            panel < old(self).panes@.len(),
        ensures
            old(self).panes@.len() > 1 ==> final(self).panes@ == old(self).panes@.remove(panel as int)
                && final(self).focused_panel == if old(self).focused_panel > 0 {
                (old(self).focused_panel - 1) as usize
            } else {
                0
            },
            old(self).panes@.len() <= 1 ==> final(self).panes@ == old(self).panes@
                && final(self).focused_panel == old(self).focused_panel,
            old(self).wf() ==> final(self).wf(),
            final(self).is_focused == old(self).is_focused,
    {
        if self.panes.len() > 1 {
            self.panes.remove(panel);
            if self.focused_panel > 0 {
                self.focused_panel = self.focused_panel - 1;
            }
            proof {
                if old(self).wf() {
                    assert forall|p: int| 0 <= p < self.panes@.len() implies active_within(
                        #[trigger] self.panes@[p].active_tab,
                        self.panes@[p].tabs@.len() as int,
                    ) by {
                        let q = if p < panel { p } else { p + 1 };
                        assert(self.panes@[p] == old(self).panes@[q]);
                        assert(active_within(old(self).panes@[q].active_tab, old(self).panes@[q].tabs@.len() as int));
                    }
                }
            }
        }
    }
}

} // verus!
