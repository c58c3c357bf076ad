//! Tab identifiers and the tabs of a panel.
use vstd::prelude::*;

verus! {

/// The identifier of an open tab.  Fresh identifiers come from a process wide
/// counter, which the application keeps.
#[derive(Clone, Copy, PartialEq, Eq, Debug, Hash, PartialOrd, Ord, Structural)]
pub struct TabId(pub u64);

/// The identifier of a panel.
#[derive(Clone, Copy, PartialEq, Eq, Debug, Hash, PartialOrd, Ord, Structural)]
pub struct PanelId(pub u64);

/// What describes an open tab.
pub struct PanelTabData {
    pub edited: bool,
    pub title: String,
    pub content_id: String,
    pub id: TabId,
}

/// The tabs of a panel and the one that is shown.
pub struct Panel {
    pub active_tab: Option<TabId>,
    pub tabs: Vec<TabId>,
}

impl Default for Panel {
    fn default() -> (panel: Panel)
        ensures
            panel.active_tab is None,
            panel.tabs@ == Seq::<TabId>::empty(),
    {
        Panel { active_tab: None, tabs: Vec::new() }
    }
}

impl Panel {
    pub fn new() -> (panel: Self)
        ensures
            panel.active_tab is None,
            panel.tabs@ == Seq::<TabId>::empty(),
    {
        Self::default()
    }

    pub fn active_tab(&self) -> (tab: Option<TabId>)
        ensures
            tab == self.active_tab,
    {
        self.active_tab
    }

    pub fn set_active_tab(&mut self, active_tab: TabId)
        ensures
            final(self).active_tab == Some(active_tab),
            final(self).tabs == old(self).tabs,
    {
        self.active_tab = Some(active_tab);
    }
}

} // verus!
