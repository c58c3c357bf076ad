//! The decisions of the application state: which parts of the user interface
//! a change reaches, which tab or panel gets the focus when one closes, the
//! history of focused tabs and the tab switcher, and the tree of panels.
use vstd::prelude::*;
use super::panels_tabs::{PanelId, TabId};
use super::views::{EditorView, view_is_popup};

verus! {

// ---------------------------------------------------------------------------
// Channels
// ---------------------------------------------------------------------------

/// The parts of the user interface that a change of the state reaches.
#[derive(PartialEq, Eq, Debug, Clone, Copy, Hash, PartialOrd, Ord, Structural)]
pub enum Channel {
    /// Affects global components
    Global,
    /// Affects all tabs
    AllTabs,
    /// Affects individual tab
    Tab { tab_id: TabId },
    /// Only affects the active tab
    ActiveTab,
    /// Affects the settings
    Settings,
    /// Only affects the file explorer
    FileExplorer,
}

pub open spec fn all_tab_channels(tab_ids: Seq<TabId>) -> Seq<Channel> {
    seq![Channel::AllTabs, Channel::ActiveTab] + tab_ids.map_values(|tab_id: TabId| Channel::Tab { tab_id })
}

/// The channels that a change on `channel` reaches, given the open tabs (in the
/// order in which the state lists them) and the active tab of the focused
/// panel.
pub open spec fn derived_channels(channel: Channel, tab_ids: Seq<TabId>, focused_active_tab: Option<TabId>) -> Seq<Channel> {
    match channel {
        Channel::AllTabs => all_tab_channels(tab_ids),
        Channel::Tab { tab_id } => if focused_active_tab == Some(tab_id) {
            seq![channel, Channel::ActiveTab]
        } else {
            seq![channel]
        },
        Channel::Settings => seq![channel, Channel::Global],
        Channel::Global => seq![Channel::Global] + all_tab_channels(tab_ids),
        _ => seq![channel],
    }
}

impl Channel {
    pub fn follow_tab(tab_id: TabId) -> (channel: Self)
        ensures
            channel == (Channel::Tab { tab_id }),
    {
        Self::Tab { tab_id }
    }

    pub fn derive_channel(self, tab_ids: &Vec<TabId>, focused_active_tab: Option<TabId>) -> (channels: Vec<Channel>)
        ensures
            channels@ == derived_channels(self, tab_ids@, focused_active_tab),
    {
        match self {
            Channel::AllTabs => all_tabs_channels(tab_ids),
            Channel::Tab { tab_id } => {
                if focused_active_tab == Some(tab_id) {
                    vec![self, Channel::ActiveTab]
                } else {
                    vec![self]
                }
            },
            Channel::Settings => vec![self, Channel::Global],
            Channel::Global => {
                let mut channels = vec![self];
                let rest = all_tabs_channels(tab_ids);
                let mut k: usize = 0;
                while k < rest.len()
                    invariant
                        k <= rest.len(),
                        channels@ == seq![Channel::Global] + rest@.take(k as int),
                    decreases rest.len() - k,
                {
                    channels.push(rest[k]);
                    k = k + 1;
                    assert(channels@ =~= seq![Channel::Global] + rest@.take(k as int));
                }
                assert(rest@.take(rest.len() as int) =~= rest@);
                channels
            },
            _ => vec![self],
        }
    }
}

fn all_tabs_channels(tab_ids: &Vec<TabId>) -> (channels: Vec<Channel>)
    ensures
        channels@ == all_tab_channels(tab_ids@),
{
    let mut channels = vec![Channel::AllTabs, Channel::ActiveTab];
    let mut k: usize = 0;
    while k < tab_ids.len()
        invariant
            k <= tab_ids.len(),
            channels@ == all_tab_channels(tab_ids@.take(k as int)),
        decreases tab_ids.len() - k,
    {
        channels.push(Channel::Tab { tab_id: tab_ids[k] });
        k = k + 1;
        assert(channels@ =~= all_tab_channels(tab_ids@.take(k as int)));
    }
    assert(tab_ids@.take(tab_ids.len() as int) =~= tab_ids@);
    channels
}

// ---------------------------------------------------------------------------
// Side panel and views
// ---------------------------------------------------------------------------

#[derive(Clone, Copy, PartialEq, Eq, Debug, Structural)]
pub enum EditorSidePanel {
    FileExplorer,
}

impl Default for EditorSidePanel {
    fn default() -> (side_panel: EditorSidePanel)
        ensures
            side_panel == EditorSidePanel::FileExplorer,
    {
        EditorSidePanel::FileExplorer
    }
}

/// Toggling a side panel closes it when it is the one shown, else shows it.
pub fn toggle_side_panel(current: &mut Option<EditorSidePanel>, side_panel: EditorSidePanel)
    ensures
        *final(current) == if *old(current) == Some(side_panel) { None } else { Some(side_panel) },
{
    *current = if *current == Some(side_panel) {
        None
    } else {
        Some(side_panel)
    };
}

/// Focusing a view remembers the view it leaves, unless that is a popup.
pub fn focus_view(previous_focused_view: &mut Option<EditorView>, focused_view: &mut EditorView, view: EditorView)
    ensures
        *final(focused_view) == view,
        *final(previous_focused_view) == if view_is_popup(*old(focused_view)) {
            *old(previous_focused_view)
        } else {
            Some(*old(focused_view))
        },
{
    if !focused_view.is_popup() {
        *previous_focused_view = Some(*focused_view);
    }
    *focused_view = view;
}

/// Going back to the remembered view (the remembered view is forgotten); the
/// tab switcher closes when it had the focus.
pub fn focus_previous_view(
    previous_focused_view: &mut Option<EditorView>,
    focused_view: &mut EditorView,
    tab_switcher: &mut Option<TabSwitcherState>,
)
    ensures
        *final(tab_switcher) == if *old(focused_view) == EditorView::TabSwitcher { None } else { *old(tab_switcher) },
        *final(focused_view) == match *old(previous_focused_view) {
            Some(v) => v,
            None => *old(focused_view),
        },
        *final(previous_focused_view) == None::<EditorView>,
{
    if *focused_view == EditorView::TabSwitcher {
        *tab_switcher = None;
    }
    match *previous_focused_view {
        Some(previous) => {
            *focused_view = previous;
            *previous_focused_view = None;
        },
        None => {},
    }
}

// ---------------------------------------------------------------------------
// Tabs and panels
// ---------------------------------------------------------------------------

/// The tab that gets the focus when the active tab at `tab_pos` closes: the
/// one after it, or else the one before it.
pub open spec fn tab_after_close(tabs: Seq<TabId>, tab_pos: int) -> Option<TabId> {
    if tab_pos + 1 < tabs.len() {
        Some(tabs[tab_pos + 1])
    } else if tab_pos >= 1 && tab_pos - 1 < tabs.len() {
        Some(tabs[tab_pos - 1])
    } else {
        None
    }
}

pub fn next_tab_after_close(tabs: &Vec<TabId>, tab_pos: usize) -> (next: Option<TabId>)
    requires
        tab_pos < tabs.len(),
    ensures
        next == tab_after_close(tabs@, tab_pos as int),
{
    if tab_pos + 1 < tabs.len() {
        Some(tabs[tab_pos + 1])
    } else if tab_pos >= 1 {
        Some(tabs[tab_pos - 1])
    } else {
        None
    }
}

/// The panel that gets the focus when `panel_id` closes: the one after it in
/// the order of the tree, or else the one before it.
pub open spec fn panel_neighbor(order: Seq<PanelId>, panel_id: PanelId) -> Option<PanelId> {
    if order.contains(panel_id) {
        let idx = order.index_of_first(panel_id).unwrap();
        if idx + 1 < order.len() {
            Some(order[idx + 1])
        } else if idx >= 1 {
            Some(order[idx - 1])
        } else {
            None
        }
    } else {
        None
    }
}

fn position_of(order: &Vec<PanelId>, panel_id: PanelId) -> (idx: Option<usize>)
    ensures
        idx is Some <==> order@.contains(panel_id),
        idx matches Some(i) ==> order@.index_of_first(panel_id) == Some(i as int) && i < order.len(),
{
    let mut k: usize = 0;
    while k < order.len()
        invariant
            k <= order.len(),
            forall|j: int| 0 <= j < k ==> order@[j] != panel_id,
        decreases order.len() - k,
    {
        if order[k] == panel_id {
            proof {
                order@.index_of_first_ensures(panel_id);
            }
            return Some(k);
        }
        k = k + 1;
    }
    proof {
        order@.index_of_first_ensures(panel_id);
    }
    None
}

pub fn neighbor_panel(order: &Vec<PanelId>, panel_id: PanelId) -> (neighbor: Option<PanelId>)
    ensures
        neighbor == panel_neighbor(order@, panel_id),
{
    proof {
        order@.index_of_first_ensures(panel_id);
    }
    match position_of(order, panel_id) {
        Some(idx) => {
            if idx + 1 < order.len() {
                Some(order[idx + 1])
            } else if idx >= 1 {
                Some(order[idx - 1])
            } else {
                None
            }
        },
        None => None,
    }
}

/// The panel after `current` in the order of the tree, if any.
pub open spec fn panel_after(order: Seq<PanelId>, current: PanelId) -> Option<PanelId> {
    if order.contains(current) && order.index_of_first(current).unwrap() + 1 < order.len() {
        Some(order[order.index_of_first(current).unwrap() + 1])
    } else {
        None
    }
}

/// The panel before `current` in the order of the tree, if any.
pub open spec fn panel_before(order: Seq<PanelId>, current: PanelId) -> Option<PanelId> {
    if order.contains(current) && order.index_of_first(current).unwrap() > 0 {
        Some(order[order.index_of_first(current).unwrap() - 1])
    } else {
        None
    }
}

pub fn next_panel(order: &Vec<PanelId>, current: PanelId) -> (next: Option<PanelId>)
    ensures
        next == panel_after(order@, current),
{
    proof {
        order@.index_of_first_ensures(current);
    }
    match position_of(order, current) {
        Some(idx) => if idx + 1 < order.len() {
            Some(order[idx + 1])
        } else {
            None
        },
        None => None,
    }
}

pub fn previous_panel(order: &Vec<PanelId>, current: PanelId) -> (previous: Option<PanelId>)
    ensures
        previous == panel_before(order@, current),
{
    proof {
        order@.index_of_first_ensures(current);
    }
    match position_of(order, current) {
        Some(idx) => if idx > 0 {
            Some(order[idx - 1])
        } else {
            None
        },
        None => None,
    }
}

/// What closing the panel `panel_id` does to the focus, given the panels in
/// the order of the tree: the last panel is never closed (`false`, nothing
/// changes); otherwise, when the closed panel had the focus, the focus goes
/// to the panel after it, or else the one before it.
pub fn close_panel_focus(order: &Vec<PanelId>, panel_id: PanelId, focused_panel: &mut Option<PanelId>) -> (closes: bool)
    ensures
        closes == (order@.len() > 1),
        *final(focused_panel) == if closes && *old(focused_panel) == Some(panel_id) {
            panel_neighbor(order@, panel_id)
        } else {
            *old(focused_panel)
        },
{
    if order.len() <= 1 {
        return false;
    }
    let neighbor = neighbor_panel(order, panel_id);
    if *focused_panel == Some(panel_id) {
        *focused_panel = neighbor;
    }
    true
}

/// The panel that focusing the next panel moves to, if it moves.
pub open spec fn next_focus(order: Seq<PanelId>, focused: Option<PanelId>) -> Option<PanelId> {
    match focused {
        Some(current) => panel_after(order, current),
        None => None,
    }
}

/// The panel that focusing the previous panel moves to, if it moves.
pub open spec fn previous_focus(order: Seq<PanelId>, focused: Option<PanelId>) -> Option<PanelId> {
    match focused {
        Some(current) => panel_before(order, current),
        None => None,
    }
}

/// Focuses the panel after the focused one in the order of the tree; nothing
/// changes when no panel is focused or the focused one is the last.  Returns
/// the panel that got the focus, whose active tab the caller then focuses.
pub fn focus_next_panel(focused_panel: &mut Option<PanelId>, order: &Vec<PanelId>) -> (moved: Option<PanelId>)
    ensures
        moved == next_focus(order@, *old(focused_panel)),
        *final(focused_panel) == match moved {
            Some(next) => Some(next),
            None => *old(focused_panel),
        },
{
    let moved = match *focused_panel {
        Some(current) => next_panel(order, current),
        None => None,
    };
    if let Some(next) = moved {
        *focused_panel = Some(next);
    }
    moved
}

/// Focuses the panel before the focused one in the order of the tree;
/// nothing changes when no panel is focused or the focused one is the first.
/// Returns the panel that got the focus.
pub fn focus_previous_panel(focused_panel: &mut Option<PanelId>, order: &Vec<PanelId>) -> (moved: Option<PanelId>)
    ensures
        moved == previous_focus(order@, *old(focused_panel)),
        *final(focused_panel) == match moved {
            Some(previous) => Some(previous),
            None => *old(focused_panel),
        },
{
    let moved = match *focused_panel {
        Some(current) => previous_panel(order, current),
        None => None,
    };
    if let Some(previous) = moved {
        *focused_panel = Some(previous);
    }
    moved
}

/// The tabs without `tab_id`.
pub open spec fn other_than(tab_id: TabId) -> spec_fn(TabId) -> bool {
    |t: TabId| t != tab_id
}

pub open spec fn without_tab(tabs: Seq<TabId>, tab_id: TabId) -> Seq<TabId> {
    tabs.filter(other_than(tab_id))
}

/// `Vec::retain(|t| *t != tab_id)`.
pub fn retain_other_tabs(tabs: &mut Vec<TabId>, tab_id: TabId)
    ensures
        final(tabs)@ == without_tab(old(tabs)@, tab_id),
{
    let ghost initial = tabs@;
    let mut kept: Vec<TabId> = Vec::new();
    let mut k: usize = 0;
    while k < tabs.len()
        invariant
            k <= tabs.len(),
            tabs@ == initial,
            kept@ == without_tab(initial.take(k as int), tab_id),
        decreases tabs.len() - k,
    {
        let t = tabs[k];
        proof {
            assert(initial.take(k + 1).drop_last() =~= initial.take(k as int));
            reveal_with_fuel(Seq::filter, 1);
        }
        if t != tab_id {
            kept.push(t);
        }
        k = k + 1;
    }
    assert(initial.take(initial.len() as int) =~= initial);
    *tabs = kept;
}

/// Focusing a tab puts it first in the history of focused tabs (while the tab
/// switcher is closed; the switcher leaves the history alone).
pub fn record_focused_tab(tab_history: &mut Vec<TabId>, tab_id: TabId, switcher_open: bool)
    ensures
        final(tab_history)@ == if switcher_open {
            old(tab_history)@
        } else {
            seq![tab_id] + without_tab(old(tab_history)@, tab_id)
        },
{
    if !switcher_open {
        retain_other_tabs(tab_history, tab_id);
        tab_history.insert(0, tab_id);
        assert(tab_history@ =~= seq![tab_id] + without_tab(old(tab_history)@, tab_id));
    }
}

// ---------------------------------------------------------------------------
// Tab switcher
// ---------------------------------------------------------------------------

/// The tab switcher: the tabs in the order of the history when it opened, and
/// the selected one.
#[derive(Clone, PartialEq, Eq, Debug)]
pub struct TabSwitcherState {
    pub order: Vec<TabId>,
    pub selected: usize,
}

/// One step through `len` entries, forward or backward, wrapping around.
pub open spec fn cycle_step(selected: int, len: int, reverse: bool) -> int {
    let delta = if reverse { len - 1 } else { 1 };
    (selected + delta) % len
}

pub fn step_selection(selected: usize, len: usize, reverse: bool) -> (next: usize)
    requires
        selected < len,
    ensures
        next == cycle_step(selected as int, len as int, reverse),
        next < len,
{
    if reverse {
        if selected == 0 {
            assert((0 + (len - 1)) % (len as int) == len - 1) by (nonlinear_arith)
                requires
                    len > 0,
            ;
            len - 1
        } else {
            assert((selected + (len - 1)) % (len as int) == selected - 1) by (nonlinear_arith)
                requires
                    0 < selected < len,
            ;
            selected - 1
        }
    } else {
        if selected + 1 == len {
            assert((selected + 1) % (len as int) == 0) by (nonlinear_arith)
                requires
                    selected + 1 == len,
            ;
            0
        } else {
            assert((selected + 1) % (len as int) == selected + 1) by (nonlinear_arith)
                requires
                    selected + 1 < len,
            ;
            selected + 1
        }
    }
}

impl TabSwitcherState {
    /// The selection stays inside the order (or at 0 when the order is empty).
    pub open spec fn wf(&self) -> bool {
        self.selected < self.order.len() || (self.selected == 0 && self.order.len() == 0)
    }

    /// Opens the switcher over the history, on the entry after the current
    /// tab (or before it, backwards); nothing opens with fewer than two tabs.
    pub fn open(tab_history: &Vec<TabId>, reverse: bool) -> (switcher: Option<TabSwitcherState>)
        ensures
            switcher is Some <==> tab_history.len() >= 2,
            switcher matches Some(s) ==> s.order@ == tab_history@ && s.selected == cycle_step(
                0,
                tab_history.len() as int,
                reverse,
            ) && s.wf(),
    {
        if tab_history.len() < 2 {
            return None;
        }
        let order = tab_history.clone();
        let selected = step_selection(0, order.len(), reverse);
        Some(TabSwitcherState { order, selected })
    }

    /// Moves the selection one step, wrapping around.
    pub fn cycle(&mut self, reverse: bool)
        requires
            old(self).wf(),
        ensures
            final(self).wf(),
            final(self).order == old(self).order,
            final(self).selected == if old(self).order.len() == 0 {
                old(self).selected as int
            } else {
                cycle_step(old(self).selected as int, old(self).order.len() as int, reverse)
            },
    {
        if self.order.len() > 0 {
            self.selected = step_selection(self.selected, self.order.len(), reverse);
        }
    }

    /// Drops a closed tab, keeping the selection inside the order.
    pub fn forget_tab(&mut self, tab_id: TabId)
        ensures
            final(self).wf(),
            final(self).order@ == without_tab(old(self).order@, tab_id),
            final(self).selected == if old(self).selected >= final(self).order.len() {
                if final(self).order.len() == 0 { 0 } else { (final(self).order.len() - 1) as usize }
            } else {
                old(self).selected
            },
    {
        retain_other_tabs(&mut self.order, tab_id);
        self.clamp_selection();
    }

    /// Keeps the selection inside the order.
    pub fn clamp_selection(&mut self)
        ensures
            final(self).wf(),
            final(self).order == old(self).order,
            final(self).selected == if old(self).selected >= old(self).order.len() {
                if old(self).order.len() == 0 { 0 } else { (old(self).order.len() - 1) as usize }
            } else {
                old(self).selected
            },
    {
        if self.selected >= self.order.len() {
            self.selected = if self.order.len() == 0 {
                0
            } else {
                self.order.len() - 1
            };
        }
    }

    /// The selected tab.
    pub fn selected_tab(&self) -> (tab: Option<TabId>)
        ensures
            tab == if self.selected < self.order.len() { Some(self.order@[self.selected as int]) } else { None },
    {
        if self.selected < self.order.len() {
            Some(self.order[self.selected])
        } else {
            None
        }
    }
}

/// What closing a tab does to the history of focused tabs and to an open tab
/// switcher: the tab leaves both, and the switcher's selection stays inside
/// its order.
pub fn forget_closed_tab(tab_history: &mut Vec<TabId>, tab_switcher: &mut Option<TabSwitcherState>, tab_id: TabId)
    ensures
        final(tab_history)@ == without_tab(old(tab_history)@, tab_id),
        final(tab_switcher).is_some() == old(tab_switcher).is_some(),
        match (*old(tab_switcher), *final(tab_switcher)) {
            (Some(before), Some(after)) => after.wf() && after.order@ == without_tab(before.order@, tab_id)
                && after.selected == if before.selected >= after.order.len() {
                if after.order.len() == 0 { 0 } else { (after.order.len() - 1) as usize }
            } else {
                before.selected
            },
            _ => true,
        },
{
    retain_other_tabs(tab_history, tab_id);
    if let Some(switcher) = tab_switcher {
        switcher.forget_tab(tab_id);
    }
}

/// Ctrl Tab: with the switcher open, the selection moves one step (wrapping
/// around); else the switcher opens over the history of focused tabs, when
/// it holds at least two.  Tells whether the switcher opened, and so whether
/// its view takes the focus.
pub fn cycle_tab_switcher(tab_switcher: &mut Option<TabSwitcherState>, tab_history: &Vec<TabId>, reverse: bool) -> (opened: bool)
    requires
        *old(tab_switcher) matches Some(s) ==> s.wf(),
    ensures
        *old(tab_switcher) is Some ==> !opened,
        *old(tab_switcher) is None ==> opened == (tab_history.len() >= 2),
        match (*old(tab_switcher), *final(tab_switcher)) {
            (Some(s), Some(t)) => t.order == s.order && t.wf() && t.selected == if s.order.len() == 0 {
                s.selected as int
            } else {
                cycle_step(s.selected as int, s.order.len() as int, reverse)
            },
            (Some(_), None) => false,
            (None, Some(t)) => opened && t.order@ == tab_history@ && t.wf() && t.selected == cycle_step(
                0,
                tab_history.len() as int,
                reverse,
            ),
            (None, None) => !opened,
        },
{
    match tab_switcher {
        Some(switcher) => {
            switcher.cycle(reverse);
            false
        },
        None => {
            *tab_switcher = TabSwitcherState::open(tab_history, reverse);
            tab_switcher.is_some()
        },
    }
}

/// Releasing Ctrl closes the switcher and hands back the tab it selected,
/// which then gets the focus.
pub fn commit_tab_switcher(tab_switcher: &mut Option<TabSwitcherState>) -> (selected: Option<TabId>)
    ensures
        *final(tab_switcher) is None,
        selected == match *old(tab_switcher) {
            Some(s) => if s.selected < s.order.len() {
                Some(s.order@[s.selected as int])
            } else {
                None
            },
            None => None,
        },
{
    match tab_switcher.take() {
        Some(switcher) => switcher.selected_tab(),
        None => None,
    }
}

// ---------------------------------------------------------------------------
// The tree of panels
// ---------------------------------------------------------------------------

/// A panel of the docking area: its tabs and the one it shows.
pub struct DockPanel {
    pub panel_id: PanelId,
    pub tabs: Vec<TabId>,
    pub active_tab_id: Option<TabId>,
}

/// The docking area: a panel, or a split of several areas.
pub enum DockNode {
    Panel(DockPanel),
    Split { children: Vec<DockNode> },
}

/// The docking area as a value.
pub enum DockView {
    Panel(PanelId, Seq<TabId>, Option<TabId>),
    Split(Seq<DockView>),
}

pub open spec fn dock_view(node: DockNode) -> DockView
    decreases node,
{
    match node {
        DockNode::Panel(p) => DockView::Panel(p.panel_id, p.tabs@, p.active_tab_id),
        DockNode::Split { children } => DockView::Split(dock_views(children@)),
    }
}

pub open spec fn dock_views(children: Seq<DockNode>) -> Seq<DockView>
    decreases children,
{
    if children.len() == 0 {
        Seq::empty()
    } else {
        dock_views(children.drop_last()).push(dock_view(children.last()))
    }
}

/// The panels of a tree, in the order of a depth first walk.
pub open spec fn view_panels(node: DockView) -> Seq<PanelId>
    decreases node,
{
    match node {
        DockView::Panel(panel_id, _, _) => seq![panel_id],
        DockView::Split(children) => views_panels(children),
    }
}

pub open spec fn views_panels(children: Seq<DockView>) -> Seq<PanelId>
    decreases children,
{
    if children.len() == 0 {
        Seq::empty()
    } else {
        views_panels(children.drop_last()) + view_panels(children.last())
    }
}

proof fn lemma_dock_views(children: Seq<DockNode>)
    ensures
        dock_views(children).len() == children.len(),
        forall|i: int| 0 <= i < children.len() ==> #[trigger] dock_views(children)[i] == dock_view(children[i]),
    decreases children.len(),
{
    if children.len() > 0 {
        lemma_dock_views(children.drop_last());
    }
}

proof fn lemma_views_panels_push(children: Seq<DockView>, last: DockView)
    ensures
        views_panels(children.push(last)) == views_panels(children) + view_panels(last),
{
    assert(children.push(last).drop_last() =~= children);
}

fn collect_panels(node: &DockNode, result: &mut Vec<PanelId>)
    ensures
        final(result)@ == old(result)@ + view_panels(dock_view(*node)),
    decreases node,
{
    match node {
        DockNode::Panel(panel) => {
            result.push(panel.panel_id);
        },
        DockNode::Split { children } => {
            let ghost start = result@;
            let mut k: usize = 0;
            while k < children.len()
                invariant
                    k <= children.len(),
                    result@ == start + views_panels(dock_views(children@.take(k as int))),
                *node == (DockNode::Split { children: *children }),
                decreases children.len() - k,
            {
                proof {
                    assert(children@.take(k + 1).drop_last() =~= children@.take(k as int));
                    lemma_views_panels_push(dock_views(children@.take(k as int)), dock_view(children@[k as int]));
                    assert(decreases_to!(*node => (*node)->children));
                    assert(decreases_to!(*children => children@));
                    assert(decreases_to!(children@ => children@[k as int]));
                }
                collect_panels(&children[k], result);
                k = k + 1;
            }
            assert(children@.take(children.len() as int) =~= children@);
        },
    }
}

/// The panels of the tree in the order of a depth first walk.
pub fn panels_in_order(panel_tree: &Option<DockNode>) -> (order: Vec<PanelId>)
    ensures
        order@ == match *panel_tree {
            Some(tree) => view_panels(dock_view(tree)),
            None => Seq::<PanelId>::empty(),
        },
{
    let mut result = Vec::new();
    match panel_tree {
        Some(tree) => {
            collect_panels(tree, &mut result);
        },
        None => {},
    }
    result
}

/// The place of the first child that is the panel `target`.
pub open spec fn panel_position(children: Seq<DockView>, target: PanelId) -> Option<int>
    decreases children.len(),
{
    if children.len() == 0 {
        None
    } else if children[0] matches DockView::Panel(id, _, _) && id == target {
        Some(0)
    } else {
        match panel_position(children.drop_first(), target) {
            Some(i) => Some(i + 1),
            None => None,
        }
    }
}

/// Removes the panel `target` from a tree: a direct child of a split is taken
/// out, else the first child (from the front) that holds it; a split left with
/// one child becomes that child.  The flag says whether the panel was found.
pub open spec fn removed_panel(node: DockView, target: PanelId) -> (DockView, bool)
    decreases node,
{
    match node {
        DockView::Panel(..) => (node, false),
        DockView::Split(children) => {
            let r = match panel_position(children, target) {
                Some(i) => (children.remove(i), true),
                None => removed_in_children(children, target),
            };
            if r.1 && r.0.len() == 1 {
                (r.0[0], true)
            } else {
                (DockView::Split(r.0), r.1)
            }
        },
    }
}

pub open spec fn removed_in_children(children: Seq<DockView>, target: PanelId) -> (Seq<DockView>, bool)
    decreases children,
{
    if children.len() == 0 {
        (children, false)
    } else {
        let first = removed_panel(children[0], target);
        if first.1 {
            (children.update(0, first.0), true)
        } else {
            let rest = removed_in_children(children.drop_first(), target);
            (seq![children[0]] + rest.0, rest.1)
        }
    }
}

proof fn lemma_panel_position_bounds(children: Seq<DockView>, target: PanelId)
    ensures
        panel_position(children, target) matches Some(i) ==> 0 <= i < children.len(),
    decreases children.len(),
{
    if children.len() > 0 {
        lemma_panel_position_bounds(children.drop_first(), target);
    }
}

proof fn lemma_dock_views_drop_first(children: Seq<DockNode>)
    requires
        children.len() > 0,
    ensures
        dock_views(children.drop_first()) == dock_views(children).drop_first(),
        dock_views(children)[0] == dock_view(children[0]),
{
    lemma_dock_views(children);
    lemma_dock_views(children.drop_first());
    assert(dock_views(children.drop_first()) =~= dock_views(children).drop_first());
}

fn direct_panel_position(children: &Vec<DockNode>, target: PanelId) -> (pos: Option<usize>)
    ensures
        pos matches Some(i) ==> i < children.len(),
        pos == match panel_position(dock_views(children@), target) {
            Some(i) => Some(i as usize),
            None => None::<usize>,
        },
{
    proof {
        lemma_dock_views(children@);
        assert(dock_views(children@).skip(0) =~= dock_views(children@));
    }
    let mut k: usize = 0;
    while k < children.len()
        invariant
            k <= children.len(),
            dock_views(children@).len() == children.len(),
            forall|i: int| 0 <= i < children.len() ==> #[trigger] dock_views(children@)[i] == dock_view(children@[i]),
            panel_position(dock_views(children@), target) == match panel_position(dock_views(children@).skip(k as int), target) {
                Some(i) => Some(i + k),
                None => None::<int>,
            },
        decreases children.len() - k,
    {
        let ghost rest = dock_views(children@).skip(k as int);
        proof {
            assert(rest.drop_first() =~= dock_views(children@).skip(k + 1));
            assert(dock_views(children@)[k as int] == dock_view(children@[k as int]));
            assert(rest[0] == dock_view(children@[k as int]));
        }
        match &children[k] {
            DockNode::Panel(panel) => {
                if panel.panel_id == target {
                    return Some(k);
                }
            },
            DockNode::Split { .. } => {},
        }
        k = k + 1;
    }
    assert(dock_views(children@).skip(k as int).len() == 0);
    None
}

fn removed_node(node: DockNode, target: PanelId) -> (r: (DockNode, bool))
    ensures
        (dock_view(r.0), r.1) == removed_panel(dock_view(node), target),
    decreases node,
{
    let ghost initial = node;
    match node {
        DockNode::Panel(panel) => (DockNode::Panel(panel), false),
        DockNode::Split { children } => {
            let ghost cs = children@;
            proof {
                lemma_dock_views(cs);
                assert(decreases_to!(initial => initial->children));
                assert(decreases_to!(initial->children => (initial->children)@));
            }
            assert(dock_view(initial) == DockView::Split(dock_views(cs)));
            proof {
                lemma_panel_position_bounds(dock_views(cs), target);
            }
            let (mut kids, removed) = match direct_panel_position(&children, target) {
                Some(i) => {
                    let mut children = children;
                    children.remove(i);
                    proof {
                        lemma_dock_views(children@);
                        assert(dock_views(children@) =~= dock_views(cs).remove(i as int));
                    }
                    (children, true)
                },
                None => removed_children(children, target),
            };
            proof {
                lemma_dock_views(kids@);
            }
            if removed && kids.len() == 1 {
                assert(dock_views(kids@)[0] == dock_view(kids@[0]));
                let only = kids.remove(0);
                (only, true)
            } else {
                (DockNode::Split { children: kids }, removed)
            }
        },
    }
}

fn removed_children(children: Vec<DockNode>, target: PanelId) -> (r: (Vec<DockNode>, bool))
    ensures
        (dock_views(r.0@), r.1) == removed_in_children(dock_views(children@), target),
    decreases children@,
{
    if children.len() == 0 {
        return (children, false);
    }
    let ghost cs = children@;
    let mut rest = children;
    let first = rest.remove(0);
    proof {
        lemma_dock_views_drop_first(cs);
        assert(rest@ =~= cs.drop_first());
        assert(decreases_to!(cs => cs[0]));
    }
    let ghost first_view = dock_view(cs[0]);
    assert(dock_views(cs)[0] == first_view);
    let (first, removed) = removed_node(first, target);
    if removed {
        rest.insert(0, first);
        proof {
            lemma_dock_views(rest@);
            lemma_dock_views(cs);
            assert(rest@ =~= cs.update(0, first));
            assert forall|i: int| 0 <= i < cs.len() implies dock_views(rest@)[i] == dock_views(cs).update(0, dock_view(first))[i] by {
                assert(dock_views(rest@)[i] == dock_view(rest@[i]));
                if i != 0 {
                    assert(dock_views(cs)[i] == dock_view(cs[i]));
                }
            }
            assert(dock_views(rest@) =~= dock_views(cs).update(0, dock_view(first)));
        }
        (rest, true)
    } else {
        proof {
            lemma_removed_unchanged(dock_view(cs[0]), target);
        }
        let ghost rest_view = rest@;
        let (mut others, removed) = removed_children(rest, target);
        let ghost others_before = others@;
        others.insert(0, first);
        proof {
            assert(others@.drop_first() =~= others_before);
            assert(dock_view(first) == first_view);
            lemma_dock_views(others@);
            lemma_dock_views_drop_first(others@);
            assert(dock_views(others@) =~= seq![dock_view(cs[0])] + dock_views(others@.drop_first()));
        }
        (others, removed)
    }
}

proof fn lemma_removed_unchanged(node: DockView, target: PanelId)
    ensures
        !removed_panel(node, target).1 ==> removed_panel(node, target).0 == node,
    decreases node,
{
    match node {
        DockView::Panel(..) => {},
        DockView::Split(children) => {
            lemma_removed_in_children_unchanged(children, target);
        },
    }
}

proof fn lemma_removed_in_children_unchanged(children: Seq<DockView>, target: PanelId)
    ensures
        !removed_in_children(children, target).1 ==> removed_in_children(children, target).0 == children,
    decreases children,
{
    if children.len() > 0 {
        lemma_removed_unchanged(children[0], target);
        lemma_removed_in_children_unchanged(children.drop_first(), target);
        if !removed_in_children(children, target).1 {
            assert(removed_in_children(children, target).0 =~= children);
        }
    }
}

/// Removes the panel `panel_id` from the tree, flattening a split that is left
/// with one child.  Returns whether the panel was found.
pub fn remove_panel_from_tree(node: &mut DockNode, target: PanelId) -> (removed: bool)
    ensures
        (dock_view(*final(node)), removed) == removed_panel(dock_view(*old(node)), target),
{
    let mut owned = DockNode::Split { children: Vec::new() };
    std::mem::swap(&mut owned, node);
    let (new_node, removed) = removed_node(owned, target);
    *node = new_node;
    removed
}

// ---------------------------------------------------------------------------
// Laws
// ---------------------------------------------------------------------------

/// Law: toggling the same side panel twice leaves the side panel as it was.
pub proof fn law_toggle_side_panel_twice(current: Option<EditorSidePanel>, side_panel: EditorSidePanel)
    ensures
        ({
            let once = if current == Some(side_panel) { None } else { Some(side_panel) };
            let twice = if once == Some(side_panel) { None } else { Some(side_panel) };
            current is None || current == Some(side_panel) ==> twice == current
        }),
{
}

/// Law: focusing a view and then going back restores the view focused
/// before, when that was not a popup.
pub proof fn law_focus_view_then_back(previous: Option<EditorView>, focused: EditorView, view: EditorView)
    requires
        !view_is_popup(focused),
    ensures
        ({
            let previous1 = if view_is_popup(focused) { previous } else { Some(focused) };
            let back = match previous1 {
                Some(v) => v,
                None => view,
            };
            back == focused
        }),
{
}

/// Law: one step backwards undoes one step forwards through the tab switcher.
pub proof fn law_cycle_back_undoes_forward(selected: int, len: int)
    requires
        0 <= selected < len,
    ensures
        cycle_step(cycle_step(selected, len, false), len, true) == selected,
{
    assert(cycle_step(cycle_step(selected, len, false), len, true) == selected) by (nonlinear_arith)
        requires
            0 <= selected < len,
    {
        let f = (selected + 1) % len;
        if selected + 1 < len {
            assert(f == selected + 1);
        } else {
            assert(f == 0);
        }
    }
}

/// Law: the history of focused tabs never holds a tab twice, and the tab just
/// focused comes first.
pub proof fn law_history_no_duplicates(history: Seq<TabId>, tab_id: TabId)
    requires
        history.no_duplicates(),
    ensures
        (seq![tab_id] + without_tab(history, tab_id)).no_duplicates(),
        (seq![tab_id] + without_tab(history, tab_id))[0] == tab_id,
{
    let rest = without_tab(history, tab_id);
    lemma_filter_no_duplicates(history, tab_id);
    assert forall|x: TabId| rest.contains(x) implies x != tab_id by {
        let i = choose|i: int| 0 <= i < rest.len() && rest[i] == x;
        history.lemma_filter_pred(other_than(tab_id), i);
    }
    let all = seq![tab_id] + rest;
    assert forall|a: int, b: int| 0 <= a < all.len() && 0 <= b < all.len() && a != b implies all[a] != all[b] by {
        if a > 0 && b > 0 {
            assert(all[a] == rest[a - 1]);
            assert(all[b] == rest[b - 1]);
        } else if a == 0 {
            assert(rest.contains(all[b]));
        } else {
            assert(rest.contains(all[a]));
        }
    }
}

proof fn lemma_filter_no_duplicates(history: Seq<TabId>, tab_id: TabId)
    requires
        history.no_duplicates(),
    ensures
        without_tab(history, tab_id).no_duplicates(),
    decreases history.len(),
{
    reveal_with_fuel(Seq::filter, 1);
    if history.len() > 0 {
        let init = history.drop_last();
        assert(init.no_duplicates());
        lemma_filter_no_duplicates(init, tab_id);
        let last = history.last();
        if last != tab_id {
            let f = without_tab(init, tab_id);
            assert(!f.contains(last)) by {
                if f.contains(last) {
                    let i = choose|i: int| 0 <= i < f.len() && f[i] == last;
                    init.lemma_filter_contains_rev(other_than(tab_id), last);
                    assert(init.contains(last));
                    let j = choose|j: int| 0 <= j < init.len() && init[j] == last;
                    assert(history[j] == history[history.len() - 1]);
                }
            }
        }
    }
}

/// A change on all the tabs, or a global one, reaches every open tab.
pub proof fn law_all_tabs_reach_every_tab(tab_ids: Seq<TabId>, focused_active_tab: Option<TabId>, k: int)
    requires
        0 <= k < tab_ids.len(),
    ensures
        derived_channels(Channel::AllTabs, tab_ids, focused_active_tab).contains(
            Channel::Tab { tab_id: tab_ids[k] },
        ),
        derived_channels(Channel::Global, tab_ids, focused_active_tab).contains(
            Channel::Tab { tab_id: tab_ids[k] },
        ),
{
    let all = all_tab_channels(tab_ids);
    assert(all[2 + k] == Channel::Tab { tab_id: tab_ids[k] });
    assert((seq![Channel::Global] + all)[3 + k] == Channel::Tab { tab_id: tab_ids[k] });
}

/// When no panel appears twice in the order, focusing the next panel and
/// then the previous one comes back to the same panel, and the other way
/// round.
pub proof fn law_next_then_previous_panel(order: Seq<PanelId>, current: PanelId)
    requires
        order.no_duplicates(),
    ensures
        panel_after(order, current) matches Some(next) ==> panel_before(order, next) == Some(current),
        panel_before(order, current) matches Some(prev) ==> panel_after(order, prev) == Some(current),
{
    order.index_of_first_ensures(current);
    if order.contains(current) {
        let i = order.index_of_first(current).unwrap();
        if i + 1 < order.len() {
            let next = order[i + 1];
            order.index_of_first_ensures(next);
            let j = order.index_of_first(next).unwrap();
            assert(j == i + 1);
        }
        if i > 0 {
            let prev = order[i - 1];
            order.index_of_first_ensures(prev);
            let j = order.index_of_first(prev).unwrap();
            assert(j == i - 1);
        }
    }
}


/// Whether a panel is another one than `target`.
pub open spec fn panel_other_than(target: PanelId) -> spec_fn(PanelId) -> bool {
    |p: PanelId| p != target
}

/// The panel order without `target`.
pub open spec fn without_panel(order: Seq<PanelId>, target: PanelId) -> Seq<PanelId> {
    order.filter(panel_other_than(target))
}

proof fn lemma_without_add(a: Seq<PanelId>, b: Seq<PanelId>, target: PanelId)
    ensures
        without_panel(a + b, target) == without_panel(a, target) + without_panel(b, target),
{
    Seq::filter_distributes_over_add(a, b, panel_other_than(target));
}

proof fn lemma_without_absent(order: Seq<PanelId>, target: PanelId)
    requires
        !order.contains(target),
    ensures
        without_panel(order, target) == order,
    decreases order.len(),
{
    if order.len() > 0 {
        let rest = order.drop_last();
        assert(!rest.contains(target)) by {
            if rest.contains(target) {
                let j = choose|j: int| 0 <= j < rest.len() && rest[j] == target;
                assert(order[j] == target);
            }
        }
        lemma_without_absent(rest, target);
        assert(order.last() != target) by {
            assert(order[order.len() - 1] == order.last());
        }
        rest.lemma_filter_push(order.last(), panel_other_than(target));
        assert(rest.push(order.last()) =~= order);
    } else {
        reveal(Seq::filter);
    }
}

proof fn lemma_without_single(target: PanelId)
    ensures
        without_panel(seq![target], target) == Seq::<PanelId>::empty(),
{
    Seq::<PanelId>::empty().lemma_filter_push(target, panel_other_than(target));
    assert(Seq::<PanelId>::empty().push(target) =~= seq![target]);
    assert(Seq::<PanelId>::empty().filter(panel_other_than(target)) =~= Seq::<PanelId>::empty()) by {
        reveal(Seq::filter);
    }
}

proof fn lemma_views_panels_add(a: Seq<DockView>, b: Seq<DockView>)
    ensures
        views_panels(a + b) == views_panels(a) + views_panels(b),
    decreases b.len(),
{
    if b.len() == 0 {
        assert(a + b =~= a);
        assert(views_panels(a) + views_panels(b) =~= views_panels(a));
    } else {
        lemma_views_panels_add(a, b.drop_last());
        assert((a + b).drop_last() =~= a + b.drop_last());
        assert((a + b).last() == b.last());
        assert(views_panels(a + b) =~= views_panels(a) + views_panels(b));
    }
}

proof fn lemma_views_panels_single(x: DockView)
    ensures
        views_panels(seq![x]) == view_panels(x),
{
    assert(seq![x].drop_last() =~= Seq::<DockView>::empty());
    assert(views_panels(Seq::<DockView>::empty()) == Seq::<PanelId>::empty());
    assert(views_panels(seq![x]) == views_panels(seq![x].drop_last()) + view_panels(seq![x].last()));
    assert(views_panels(seq![x]) =~= view_panels(x));
}

proof fn lemma_no_duplicates_split(a: Seq<PanelId>, b: Seq<PanelId>, target: PanelId)
    requires
        (a + b).no_duplicates(),
    ensures
        a.no_duplicates(),
        b.no_duplicates(),
        a.contains(target) ==> !b.contains(target),
{
    let ab = a + b;
    assert forall|i: int, j: int| 0 <= i < a.len() && 0 <= j < a.len() && i != j implies a[i] != a[j] by {
        assert(ab[i] == a[i] && ab[j] == a[j]);
    }
    assert forall|i: int, j: int| 0 <= i < b.len() && 0 <= j < b.len() && i != j implies b[i] != b[j] by {
        assert(ab[a.len() + i] == b[i] && ab[a.len() + j] == b[j]);
    }
    if a.contains(target) && b.contains(target) {
        let i = choose|i: int| 0 <= i < a.len() && a[i] == target;
        let j = choose|j: int| 0 <= j < b.len() && b[j] == target;
        assert(ab[i] == ab[a.len() + j]);
    }
}

proof fn lemma_panel_position(children: Seq<DockView>, target: PanelId)
    ensures
        panel_position(children, target) matches Some(i) ==> 0 <= i < children.len() && (children[i]
            matches DockView::Panel(id, _, _) && id == target),
        panel_position(children, target) is None ==> forall|j: int|
            0 <= j < children.len() ==> !(#[trigger] children[j] matches DockView::Panel(id, _, _) && id == target),
    decreases children.len(),
{
    if children.len() > 0 {
        lemma_panel_position(children.drop_first(), target);
        if panel_position(children, target) is None {
            assert forall|j: int| 0 <= j < children.len() implies !(#[trigger] children[j] matches DockView::Panel(
                id,
                _,
                _,
            ) && id == target) by {
                if j > 0 {
                    assert(children[j] == children.drop_first()[j - 1]);
                }
            }
        }
        if let Some(i) = panel_position(children, target) {
            if i > 0 {
                assert(children[i] == children.drop_first()[i - 1]);
            }
        }
    }
}

/// Removing a panel from the tree: the removal happens exactly when the tree
/// is a split that holds the panel; when it does not happen the tree is
/// unchanged; and when no panel appears twice, the panels left are those of
/// before, in the same order, without the one removed.
pub proof fn law_remove_panel(node: DockView, target: PanelId)
    ensures
        removed_panel(node, target).1 == (node is Split && view_panels(node).contains(target)),
        !removed_panel(node, target).1 ==> removed_panel(node, target).0 == node,
        removed_panel(node, target).1 && view_panels(node).no_duplicates() ==> view_panels(
            removed_panel(node, target).0,
        ) == without_panel(view_panels(node), target),
    decreases node,
{
    lemma_removed_unchanged(node, target);
    match node {
        DockView::Panel(..) => {},
        DockView::Split(children) => {
            lemma_panel_position(children, target);
            let r = match panel_position(children, target) {
                Some(i) => (children.remove(i), true),
                None => removed_in_children(children, target),
            };
            match panel_position(children, target) {
                Some(i) => {
                    let front = children.take(i);
                    let back = children.skip(i + 1);
                    assert(children =~= front + seq![children[i]] + back);
                    assert(children.remove(i) =~= front + back);
                    lemma_views_panels_add(front + seq![children[i]], back);
                    lemma_views_panels_add(front, seq![children[i]]);
                    lemma_views_panels_single(children[i]);
                    lemma_views_panels_add(front, back);
                    assert(view_panels(children[i]) =~= seq![target]);
                    let before = views_panels(children);
                    assert(before == views_panels(front) + seq![target] + views_panels(back));
                    assert(before.contains(target)) by {
                        assert(before[views_panels(front).len() as int] == target);
                    }
                    if before.no_duplicates() {
                        lemma_no_duplicates_split(views_panels(front) + seq![target], views_panels(back), target);
                        lemma_no_duplicates_split(views_panels(front), seq![target], target);
                        assert((views_panels(front) + seq![target]).contains(target)) by {
                            assert((views_panels(front) + seq![target])[views_panels(front).len() as int] == target);
                        }
                        assert(seq![target].contains(target)) by {
                            assert(seq![target][0] == target);
                        }
                        lemma_without_absent(views_panels(front), target);
                        lemma_without_absent(views_panels(back), target);
                        lemma_without_single(target);
                        lemma_without_add(views_panels(front) + seq![target], views_panels(back), target);
                        lemma_without_add(views_panels(front), seq![target], target);
                        assert(without_panel(before, target) =~= views_panels(front) + views_panels(back));
                        if r.0.len() == 1 {
                            assert(r.0 =~= seq![r.0[0]]);
                            lemma_views_panels_single(r.0[0]);
                        }
                    }
                },
                None => {
                    lemma_removed_in_children(children, target);
                    if r.1 && r.0.len() == 1 {
                        assert(r.0 =~= seq![r.0[0]]);
                        lemma_views_panels_single(r.0[0]);
                    }
                },
            }
        },
    }
}

proof fn lemma_removed_in_children(children: Seq<DockView>, target: PanelId)
    requires
        panel_position(children, target) is None,
    ensures
        removed_in_children(children, target).1 == views_panels(children).contains(target),
        removed_in_children(children, target).1 && views_panels(children).no_duplicates() ==> views_panels(
            removed_in_children(children, target).0,
        ) == without_panel(views_panels(children), target),
    decreases children,
{
    lemma_removed_in_children_unchanged(children, target);
    if children.len() > 0 {
        lemma_panel_position(children, target);
        let c0 = children[0];
        let rest = children.drop_first();
        assert(children =~= seq![c0] + rest);
        lemma_views_panels_add(seq![c0], rest);
        lemma_views_panels_single(c0);
        let whole = views_panels(children);
        assert(whole == view_panels(c0) + views_panels(rest));
        law_remove_panel(c0, target);
        assert(view_panels(c0).contains(target) ==> c0 is Split) by {
            if let DockView::Panel(id, _, _) = c0 {
                assert(!(children[0] matches DockView::Panel(id, _, _) && id == target));
                assert(view_panels(c0) =~= seq![id]);
            }
        }
        let first = removed_panel(c0, target);
        assert(whole.contains(target) <==> view_panels(c0).contains(target) || views_panels(rest).contains(target)) by {
            if whole.contains(target) {
                let j = choose|j: int| 0 <= j < whole.len() && whole[j] == target;
                if j < view_panels(c0).len() {
                    assert(view_panels(c0)[j] == target);
                } else {
                    assert(views_panels(rest)[j - view_panels(c0).len()] == target);
                }
            }
            if view_panels(c0).contains(target) {
                let j = choose|j: int| 0 <= j < view_panels(c0).len() && view_panels(c0)[j] == target;
                assert(whole[j] == target);
            }
            if views_panels(rest).contains(target) {
                let j = choose|j: int| 0 <= j < views_panels(rest).len() && views_panels(rest)[j] == target;
                assert(whole[view_panels(c0).len() + j] == target);
            }
        }
        if first.1 {
            let after = children.update(0, first.0);
            assert(after =~= seq![first.0] + rest);
            lemma_views_panels_add(seq![first.0], rest);
            lemma_views_panels_single(first.0);
            if whole.no_duplicates() {
                lemma_no_duplicates_split(view_panels(c0), views_panels(rest), target);
                lemma_without_absent(views_panels(rest), target);
                lemma_without_add(view_panels(c0), views_panels(rest), target);
            }
        } else {
            assert(panel_position(rest, target) is None) by {
                lemma_panel_position(rest, target);
                if let Some(i) = panel_position(rest, target) {
                    assert(rest[i] == children[i + 1]);
                }
            }
            lemma_removed_in_children(rest, target);
            let others = removed_in_children(rest, target);
            lemma_views_panels_add(seq![c0], others.0);
            if others.1 && whole.no_duplicates() {
                lemma_no_duplicates_split(view_panels(c0), views_panels(rest), target);
                lemma_without_absent(view_panels(c0), target);
                lemma_without_add(view_panels(c0), views_panels(rest), target);
            }
        }
    }
}


/// When no panel appears twice in the order, focusing the next panel and then
/// the previous one gives the focus back to the panel that had it, and the
/// other way round.
pub proof fn law_focus_next_then_previous(order: Seq<PanelId>, focused: Option<PanelId>)
    requires
        order.no_duplicates(),
    ensures
        next_focus(order, focused) matches Some(next) ==> previous_focus(order, Some(next)) == focused,
        previous_focus(order, focused) matches Some(prev) ==> next_focus(order, Some(prev)) == focused,
{
    if let Some(current) = focused {
        law_next_then_previous_panel(order, current);
    }
}

/// When a panel of the tree that has the focus is closed, and no panel
/// appears twice, the focus goes to another panel of the tree.
pub proof fn law_close_focused_panel_moves_focus(order: Seq<PanelId>, panel_id: PanelId)
    requires
        order.no_duplicates(),
        order.len() > 1,
        order.contains(panel_id),
    ensures
        panel_neighbor(order, panel_id) matches Some(next) ==> next != panel_id && order.contains(next),
        panel_neighbor(order, panel_id) is Some,
{
    order.index_of_first_ensures(panel_id);
    let idx = order.index_of_first(panel_id).unwrap();
    if idx + 1 < order.len() {
        assert(order[idx + 1] != order[idx]);
    } else {
        assert(idx >= 1);
        assert(order[idx - 1] != order[idx]);
    }
}

/// A closed tab is in neither the history nor the switcher's order
/// afterwards.
pub proof fn law_closed_tab_forgotten(tabs: Seq<TabId>, tab_id: TabId)
    ensures
        !without_tab(tabs, tab_id).contains(tab_id),
{
    if without_tab(tabs, tab_id).contains(tab_id) {
        let k = choose|k: int| 0 <= k < without_tab(tabs, tab_id).len() && without_tab(tabs, tab_id)[k] == tab_id;
        tabs.lemma_filter_pred(other_than(tab_id), k);
    }
}

} // verus!
