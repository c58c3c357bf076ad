use ropey::Rope;
use valin::commander::submit_target;
use valin::commands::split::split_command;
use valin::global_defaults::{
    default_shortcut, panel_shortcut, str_contains, text_matches, text_matches_ignoring_case,
    toggle_commander, PanelAction, PanelKey, ShortcutAction, ShortcutKey,
};
use valin::hooks::use_editable::EditorData;
use valin::panels::{PanelTab as PaneTab, PanelsManager};
use valin::state::views;
use valin::state::{AppState, Channel, EditorSidePanel, EditorView, Panel, PanelTab};

fn doc(path: &str) -> PanelTab {
    PanelTab::TextEditor(EditorData::new(
        path.to_string(),
        Rope::from_str("hello"),
        (0, 0),
        "/p".to_string(),
    ))
}

fn pane_doc(path: &str) -> PaneTab {
    PaneTab::TextEditor(EditorData::new(
        path.to_string(),
        Rope::from_str("hello"),
        (0, 0),
        "/p".to_string(),
    ))
}

fn ids(state: &AppState, panel: usize) -> Vec<String> {
    state.panels[panel].tabs.iter().map(|t| t.content_id()).collect()
}

#[test]
fn new_state_has_one_empty_focused_panel() {
    let state = AppState::new();
    assert_eq!(state.panels.len(), 1);
    assert_eq!(state.focused_panel(), 0);
    assert_eq!(state.panels[0].active_tab, None);
    assert!(state.panels[0].tabs.is_empty());
    assert_eq!(*state.focused_view(), EditorView::CodeEditor);
    assert_eq!(state.side_panel, Some(EditorSidePanel::FileExplorer));
}

#[test]
fn push_tab_opens_once_and_focuses() {
    let mut state = AppState::new();
    state.push_tab(doc("/p/a.rs"), 0, true);
    state.push_tab(doc("/p/b.rs"), 0, true);
    assert_eq!(ids(&state, 0), vec!["/p/a.rs".to_string(), "/p/b.rs".to_string()]);
    assert_eq!(state.panels[0].active_tab, Some(1));
    // The same document again: no new tab, the open one is focused.
    state.push_tab(doc("/p/a.rs"), 0, true);
    assert_eq!(state.panels[0].tabs.len(), 2);
    assert_eq!(state.panels[0].active_tab, Some(0));
    // Without focus the active tab stays.
    state.push_tab(PanelTab::Config, 0, false);
    assert_eq!(ids(&state, 0), vec!["/p/a.rs".to_string(), "/p/b.rs".to_string(), "config".to_string()]);
    assert_eq!(state.panels[0].active_tab, Some(0));
}

#[test]
fn push_tab_focuses_the_panel() {
    let mut state = AppState::new();
    state.push_panel(Panel::new());
    state.push_tab(PanelTab::Welcome, 1, true);
    assert_eq!(state.focused_panel(), 1);
    assert_eq!(state.panels[1].active_tab, Some(0));
    assert!(state.panels[0].tabs.is_empty());
}

#[test]
fn close_tab_moves_the_active_tab() {
    let mut state = AppState::new();
    for p in ["/p/a.rs", "/p/b.rs", "/p/c.rs"] {
        state.push_tab(doc(p), 0, true);
    }
    state.panels[0].set_active_tab(1);
    let closed = state.close_tab(0, 1);
    assert_eq!(closed.content_id(), "/p/b.rs");
    assert_eq!(ids(&state, 0), vec!["/p/a.rs".to_string(), "/p/c.rs".to_string()]);
    // The next tab takes the place of the closed active tab.
    assert_eq!(state.panels[0].active_tab, Some(1));
    // The last one closes: the previous one is active.
    state.close_tab(0, 1);
    assert_eq!(state.panels[0].active_tab, Some(0));
    // The only one closes: none is active.
    state.close_tab(0, 0);
    assert_eq!(state.panels[0].active_tab, None);
    assert!(state.panels[0].tabs.is_empty());
}

#[test]
fn close_tab_before_the_active_one_keeps_it_active() {
    let mut state = AppState::new();
    for p in ["/p/a.rs", "/p/b.rs", "/p/c.rs"] {
        state.push_tab(doc(p), 0, true);
    }
    assert_eq!(state.panels[0].active_tab, Some(2));
    state.close_tab(0, 0);
    assert_eq!(state.panels[0].active_tab, Some(1));
    assert_eq!(state.panels[0].tabs[1].content_id(), "/p/c.rs");
    state.panels[0].set_active_tab(0);
    state.close_tab(0, 1);
    assert_eq!(state.panels[0].active_tab, Some(0));
    assert_eq!(state.panels[0].tabs[0].content_id(), "/p/b.rs");
}

#[test]
fn close_panel_keeps_the_last_panel() {
    let mut state = AppState::new();
    state.close_panel(0);
    assert_eq!(state.panels.len(), 1);
    state.push_panel(Panel::new());
    state.push_panel(Panel::new());
    state.set_focused_panel(2);
    state.close_panel(1);
    assert_eq!(state.panels.len(), 2);
    assert_eq!(state.focused_panel(), 1);
    state.set_focused_panel(0);
    state.close_panel(0);
    assert_eq!(state.panels.len(), 1);
    assert_eq!(state.focused_panel(), 0);
}

#[test]
fn toggle_side_panel_twice_restores_it() {
    let mut state = AppState::new();
    state.toggle_side_panel(EditorSidePanel::FileExplorer);
    assert_eq!(state.side_panel, None);
    state.toggle_side_panel(EditorSidePanel::FileExplorer);
    assert_eq!(state.side_panel, Some(EditorSidePanel::FileExplorer));
}

#[test]
fn focused_view_goes_back_once() {
    let mut state = AppState::new();
    state.set_focused_view(EditorView::Commander);
    assert_eq!(*state.focused_view(), EditorView::Commander);
    assert_eq!(state.previous_focused_view, Some(EditorView::CodeEditor));
    state.set_focused_view_to_previous();
    assert_eq!(*state.focused_view(), EditorView::CodeEditor);
    assert_eq!(state.previous_focused_view, None);
    state.set_focused_view_to_previous();
    assert_eq!(*state.focused_view(), EditorView::CodeEditor);
}

#[test]
fn editor_view_names() {
    assert_eq!(EditorView::CodeEditor.to_string(), "Code Editor");
    assert_eq!(EditorView::FilesExplorer.to_string(), "Files Explorer");
    assert_eq!(EditorView::Commander.to_string(), "Commander");
}

#[test]
fn derive_channel_of_all_tabs_and_of_a_tab() {
    let mut state = AppState::new();
    state.push_tab(doc("/p/a.rs"), 0, true);
    state.push_tab(doc("/p/b.rs"), 0, true);
    state.push_panel(Panel::new());
    state.push_tab(PanelTab::Config, 1, false);
    assert_eq!(
        Channel::AllTabs.derive_channel(&state),
        vec![
            Channel::AllTabs,
            Channel::ActiveTab,
            Channel::follow_tab(0, 0),
            Channel::follow_tab(0, 1),
            Channel::follow_tab(1, 0),
        ]
    );
    assert_eq!(
        Channel::follow_tab(0, 1).derive_channel(&state),
        vec![Channel::follow_tab(0, 1), Channel::ActiveTab]
    );
    assert_eq!(Channel::follow_tab(0, 0).derive_channel(&state), vec![Channel::follow_tab(0, 0)]);
    assert_eq!(Channel::follow_tab(1, 0).derive_channel(&state), vec![Channel::follow_tab(1, 0)]);
    assert_eq!(Channel::Global.derive_channel(&state), vec![Channel::Global]);
}

#[test]
fn tab_data_of_each_kind() {
    let data = doc("/p/src/main.rs").get_data();
    assert_eq!(data.id, "/p/src/main.rs");
    assert_eq!(data.title, "main.rs");
    assert!(!data.edited);
    let config = PanelTab::Config.get_data();
    assert_eq!((config.id.as_str(), config.title.as_str()), ("config", "Config"));
    let welcome = PanelTab::Welcome.get_data();
    assert_eq!((welcome.id.as_str(), welcome.title.as_str()), ("welcome", "Welcome"));
    assert!(doc("/").try_get_data().is_none());
    assert!(doc("/p/a.rs").try_get_data().is_some());
}

#[test]
fn edited_documents_say_so() {
    let mut state = AppState::new();
    state.push_tab(doc("/p/a.rs"), 0, true);
    state.editor_mut(0, 0).set_edited(true);
    assert!(state.panels[0].tabs[0].get_data().edited);
    assert!(state.editor(0, 0).is_edited());
}

#[test]
fn editor_data_of_tabs() {
    let mut state = AppState::new();
    state.push_tab(doc("/p/a.rs"), 0, true);
    state.push_tab(PanelTab::Config, 0, true);
    let (path, rope) = state.editor_mut_data(0, 0).unwrap();
    assert_eq!(path, "/p/a.rs");
    assert_eq!(rope.to_string(), "hello");
    assert!(state.editor_mut_data(0, 1).is_none());
    assert!(state.try_editor_mut(0, 1).is_none());
    assert!(state.try_editor_mut(0, 0).is_some());
    assert_eq!(state.get_focused_data(), (EditorView::CodeEditor, 0, Some(1)));
}

#[test]
fn panes_push_and_close() {
    let mut manager = PanelsManager::new();
    assert!(manager.is_focused());
    manager.push_tab(pane_doc("/p/a.rs"), 0, true);
    manager.push_tab(PaneTab::Config, 0, true);
    manager.push_tab(pane_doc("/p/a.rs"), 0, true);
    assert_eq!(manager.panes[0].tabs.len(), 2);
    assert_eq!(manager.panes[0].active_tab, Some(0));
    manager.close_editor(0, 0);
    assert_eq!(manager.panes[0].active_tab, Some(0));
    assert_eq!(manager.panes[0].tabs[0].content_id(), "config");
    let (id, title) = manager.panes[0].tabs[0].get_data();
    assert_eq!((id.as_str(), title.as_str()), ("config", "Config"));
    manager.push_panel(valin::panels::Panel::new());
    manager.set_focused_panel(1);
    manager.close_panel(0);
    assert_eq!(manager.panels().len(), 1);
    assert_eq!(manager.focused_panel(), 0);
    manager.set_focused(false);
    assert!(!manager.is_focused());
}

#[test]
fn pane_tab_titles() {
    let (id, title) = pane_doc("/p/lib.rs").get_data();
    assert_eq!((id.as_str(), title.as_str()), ("/p/lib.rs", "lib.rs"));
    assert!(pane_doc("/").try_get_data().is_none());
}

#[test]
fn split_panel_command() {
    let mut state = AppState::new();
    split_command(&mut state, "panel");
    assert_eq!(state.panels.len(), 2);
    // The focus goes to the panel that was the last before the split.
    assert_eq!(state.focused_panel(), 0);
    split_command(&mut state, "panel");
    assert_eq!(state.panels.len(), 3);
    assert_eq!(state.focused_panel(), 1);
    split_command(&mut state, "tab");
    assert_eq!(state.panels.len(), 3);
    assert_eq!(state.focused_panel(), 1);
}

#[test]
fn toggle_commander_goes_there_and_back() {
    let mut state = AppState::new();
    toggle_commander(&mut state);
    assert_eq!(*state.focused_view(), EditorView::Commander);
    toggle_commander(&mut state);
    assert_eq!(*state.focused_view(), EditorView::CodeEditor);
}

#[test]
fn commands_match_their_text() {
    assert!(text_matches("Split Panel", "split"));
    assert!(text_matches("Split Panel", "panel"));
    assert!(!text_matches("Split Panel", "Split"));
    assert!(text_matches_ignoring_case("Open Settings", "SETT"));
    assert!(!text_matches_ignoring_case("Open Settings", "font"));
    assert!(text_matches("Open Settings", ""));
}

#[test]
fn contains_finds_a_part() {
    assert!(str_contains("abcdef", "cde"));
    assert!(str_contains("abc", ""));
    assert!(!str_contains("abc", "abcd"));
    assert!(!str_contains("abcabd", "abe"));
    assert!(str_contains("aab", "ab"));
}

#[test]
fn default_shortcuts() {
    assert_eq!(
        default_shortcut(ShortcutKey::Escape, false, views::EditorView::Panels),
        Some(ShortcutAction::ToggleCommander)
    );
    assert_eq!(
        default_shortcut(ShortcutKey::KeyE, true, views::EditorView::FilesExplorer),
        Some(ShortcutAction::FocusView(views::EditorView::Panels))
    );
    assert_eq!(
        default_shortcut(ShortcutKey::KeyE, true, views::EditorView::Panels),
        Some(ShortcutAction::FocusView(views::EditorView::FilesExplorer))
    );
    assert_eq!(default_shortcut(ShortcutKey::KeyE, false, views::EditorView::Panels), None);
    assert_eq!(default_shortcut(ShortcutKey::Other, true, views::EditorView::Panels), None);
}

#[test]
fn commander_submits_name_and_arguments() {
    let names = vec!["split".to_string(), "open".to_string(), "split".to_string()];
    assert_eq!(submit_target(&names, "split panel"), Some((0, "panel".to_string())));
    assert_eq!(submit_target(&names, "open   a b  "), Some((1, "a b".to_string())));
    assert_eq!(submit_target(&names, "split "), Some((0, String::new())));
    assert_eq!(submit_target(&names, "split"), None);
    assert_eq!(submit_target(&names, "close x"), None);
    assert_eq!(submit_target(&names, " split x"), None);
}

#[test]
fn panel_shortcuts_follow_the_readme() {
    assert_eq!(panel_shortcut(PanelKey::Plus, true, false), Some(PanelAction::SplitPanel));
    assert_eq!(panel_shortcut(PanelKey::Minus, true, false), Some(PanelAction::ClosePanel));
    assert_eq!(panel_shortcut(PanelKey::ArrowLeft, true, false), Some(PanelAction::FocusPreviousPanel));
    assert_eq!(panel_shortcut(PanelKey::ArrowRight, true, false), Some(PanelAction::FocusNextPanel));
    assert_eq!(panel_shortcut(PanelKey::KeyW, false, true), Some(PanelAction::CloseTab));
    assert_eq!(panel_shortcut(PanelKey::Plus, false, false), None);
    assert_eq!(panel_shortcut(PanelKey::KeyW, true, false), None);
    assert_eq!(panel_shortcut(PanelKey::Other, true, true), None);
}

#[test]
fn consistency_of_the_state() {
    let mut state = AppState::new();
    assert!(state.is_consistent());
    state.focused_panel = 1;
    assert!(!state.is_consistent());
    state.focused_panel = 0;
    state.panels[0].active_tab = Some(0);
    assert!(!state.is_consistent());
    state.panels[0].active_tab = None;
    state.panels.clear();
    assert!(!state.is_consistent());
}
