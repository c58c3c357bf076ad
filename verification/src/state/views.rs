//! The views of the editor that can hold the focus.
use vstd::prelude::*;

verus! {

#[derive(Clone, Copy, PartialEq, Eq, Debug, Structural)]
pub enum EditorView {
    Panels,
    FilesExplorer,
    Commander,
    Search,
    TabSwitcher,
}

impl Default for EditorView {
    fn default() -> (view: EditorView)
        ensures
            view == EditorView::Panels,
    {
        EditorView::Panels
    }
}

pub open spec fn view_is_popup(view: EditorView) -> bool {
    view == EditorView::Search || view == EditorView::Commander
}

pub open spec fn view_name(view: EditorView) -> Seq<char> {
    match view {
        EditorView::Panels => "Panels"@,
        EditorView::FilesExplorer => "Files Explorer"@,
        EditorView::Commander => "Commander"@,
        EditorView::Search => "Search"@,
        EditorView::TabSwitcher => "Tab Switcher"@,
    }
}

impl EditorView {
    /// Popups (the commander and the search) float over the other views.
    pub fn is_popup(&self) -> (popup: bool)
        ensures
            popup == view_is_popup(*self),
    {
        match self {
            EditorView::Search | EditorView::Commander => true,
            _ => false,
        }
    }

    /// The name under which the view is shown.
    pub fn to_string(&self) -> (name: String)
        ensures
            name@ == view_name(*self),
    {
        match self {
            EditorView::Panels => "Panels",
            EditorView::FilesExplorer => "Files Explorer",
            EditorView::Commander => "Commander",
            EditorView::Search => "Search",
            EditorView::TabSwitcher => "Tab Switcher",
        }.to_owned()
    }
}

} // verus!
