use std::cell::Cell;
use std::rc::Rc;

use valin::state::app::{
    close_panel_focus, commit_tab_switcher, forget_closed_tab, cycle_tab_switcher, focus_next_panel, focus_previous_panel, focus_previous_view, focus_view, neighbor_panel, next_panel, next_tab_after_close,
    panels_in_order, previous_panel, record_focused_tab, remove_panel_from_tree,
    retain_other_tabs, step_selection, toggle_side_panel, Channel, DockNode, DockPanel,
    EditorSidePanel, TabSwitcherState,
};
use valin::state::commands::{
    CommandMatching, CommandRunContext, EditorCommand, EditorCommands, FnCommand,
};
use valin::state::editor::{
    editor_focus, plan_key_down, plan_reduce, reduce_key_down, Arrow, ChannelSelection, EditorActionKind, EditorFocus, KeyPress,
};
use valin::state::file_icons::{FileIcons, IconSource, IconTheme};
use valin::state::panels_tabs::{Panel, PanelId, TabId};
use valin::state::views::EditorView;

fn tabs(ids: &[u64]) -> Vec<TabId> {
    ids.iter().map(|i| TabId(*i)).collect()
}

fn panels(ids: &[u64]) -> Vec<PanelId> {
    ids.iter().map(|i| PanelId(*i)).collect()
}

#[test]
fn views_and_popups() {
    assert!(EditorView::Commander.is_popup());
    assert!(EditorView::Search.is_popup());
    assert!(!EditorView::Panels.is_popup());
    assert_eq!(EditorView::TabSwitcher.to_string(), "Tab Switcher");
    assert_eq!(EditorView::default(), EditorView::Panels);
}

#[test]
fn channels_reached_by_a_change() {
    let open = tabs(&[4, 7]);
    assert_eq!(
        Channel::AllTabs.derive_channel(&open, Some(TabId(7))),
        vec![
            Channel::AllTabs,
            Channel::ActiveTab,
            Channel::follow_tab(TabId(4)),
            Channel::follow_tab(TabId(7)),
        ]
    );
    assert_eq!(
        Channel::follow_tab(TabId(7)).derive_channel(&open, Some(TabId(7))),
        vec![Channel::follow_tab(TabId(7)), Channel::ActiveTab]
    );
    assert_eq!(
        Channel::follow_tab(TabId(4)).derive_channel(&open, Some(TabId(7))),
        vec![Channel::follow_tab(TabId(4))]
    );
    assert_eq!(
        Channel::Settings.derive_channel(&open, None),
        vec![Channel::Settings, Channel::Global]
    );
    assert_eq!(
        Channel::Global.derive_channel(&open, None),
        vec![
            Channel::Global,
            Channel::AllTabs,
            Channel::ActiveTab,
            Channel::follow_tab(TabId(4)),
            Channel::follow_tab(TabId(7)),
        ]
    );
    assert_eq!(Channel::FileExplorer.derive_channel(&open, None), vec![Channel::FileExplorer]);
}

#[test]
fn side_panel_and_focus() {
    let mut side = Some(EditorSidePanel::FileExplorer);
    toggle_side_panel(&mut side, EditorSidePanel::FileExplorer);
    assert_eq!(side, None);
    toggle_side_panel(&mut side, EditorSidePanel::FileExplorer);
    assert_eq!(side, Some(EditorSidePanel::FileExplorer));

    let mut previous = None;
    let mut focused = EditorView::Panels;
    let mut switcher = None;
    focus_view(&mut previous, &mut focused, EditorView::Commander);
    assert_eq!((previous, focused), (Some(EditorView::Panels), EditorView::Commander));
    // Leaving a popup for another view keeps the view before the popup.
    focus_view(&mut previous, &mut focused, EditorView::Search);
    assert_eq!((previous, focused), (Some(EditorView::Panels), EditorView::Search));
    focus_previous_view(&mut previous, &mut focused, &mut switcher);
    assert_eq!((previous, focused), (None, EditorView::Panels));
    focus_previous_view(&mut previous, &mut focused, &mut switcher);
    assert_eq!((previous, focused), (None, EditorView::Panels));
}

#[test]
fn tab_switcher_closes_with_its_view() {
    let mut previous = Some(EditorView::Panels);
    let mut focused = EditorView::TabSwitcher;
    let mut switcher = TabSwitcherState::open(&tabs(&[1, 2]), false);
    assert!(switcher.is_some());
    focus_previous_view(&mut previous, &mut focused, &mut switcher);
    assert!(switcher.is_none());
    assert_eq!(focused, EditorView::Panels);
}

#[test]
fn focus_after_a_tab_closes() {
    let open = tabs(&[1, 2, 3]);
    assert_eq!(next_tab_after_close(&open, 0), Some(TabId(2)));
    assert_eq!(next_tab_after_close(&open, 2), Some(TabId(2)));
    assert_eq!(next_tab_after_close(&tabs(&[9]), 0), None);
}

#[test]
fn panels_next_to_each_other() {
    let order = panels(&[10, 20, 30]);
    assert_eq!(neighbor_panel(&order, PanelId(10)), Some(PanelId(20)));
    assert_eq!(neighbor_panel(&order, PanelId(30)), Some(PanelId(20)));
    assert_eq!(neighbor_panel(&order, PanelId(99)), None);
    assert_eq!(neighbor_panel(&panels(&[10]), PanelId(10)), None);
    assert_eq!(next_panel(&order, PanelId(20)), Some(PanelId(30)));
    assert_eq!(next_panel(&order, PanelId(30)), None);
    assert_eq!(previous_panel(&order, PanelId(20)), Some(PanelId(10)));
    assert_eq!(previous_panel(&order, PanelId(10)), None);
}

#[test]
fn history_of_focused_tabs() {
    let mut history = tabs(&[3, 1, 2, 1]);
    retain_other_tabs(&mut history, TabId(1));
    assert_eq!(history, tabs(&[3, 2]));
    record_focused_tab(&mut history, TabId(2), false);
    assert_eq!(history, tabs(&[2, 3]));
    record_focused_tab(&mut history, TabId(5), true);
    assert_eq!(history, tabs(&[2, 3]));
    record_focused_tab(&mut history, TabId(5), false);
    assert_eq!(history, tabs(&[5, 2, 3]));
}

#[test]
fn tab_switcher_cycles() {
    assert!(TabSwitcherState::open(&tabs(&[1]), false).is_none());
    let mut switcher = TabSwitcherState::open(&tabs(&[1, 2, 3]), false).unwrap();
    assert_eq!(switcher.selected, 1);
    assert_eq!(switcher.selected_tab(), Some(TabId(2)));
    switcher.cycle(false);
    assert_eq!(switcher.selected_tab(), Some(TabId(3)));
    switcher.cycle(false);
    assert_eq!(switcher.selected_tab(), Some(TabId(1)));
    switcher.cycle(true);
    assert_eq!(switcher.selected_tab(), Some(TabId(3)));
    let backwards = TabSwitcherState::open(&tabs(&[1, 2, 3]), true).unwrap();
    assert_eq!(backwards.selected, 2);
    switcher.forget_tab(TabId(3));
    assert_eq!(switcher.order, tabs(&[1, 2]));
    assert_eq!(switcher.selected, 1);
    assert_eq!(step_selection(0, 4, true), 3);
    assert_eq!(step_selection(3, 4, false), 0);
}

fn dock_panel(id: u64) -> DockNode {
    DockNode::Panel(DockPanel { panel_id: PanelId(id), tabs: Vec::new(), active_tab_id: None })
}

#[test]
fn panel_tree_order_and_removal() {
    let tree = DockNode::Split {
        children: vec![dock_panel(1), DockNode::Split { children: vec![dock_panel(2), dock_panel(3)] }],
    };
    let mut tree = Some(tree);
    assert_eq!(panels_in_order(&tree), panels(&[1, 2, 3]));
    assert_eq!(panels_in_order(&None), Vec::<PanelId>::new());
    let node = tree.as_mut().unwrap();
    assert!(remove_panel_from_tree(node, PanelId(2)));
    // The inner split is left with one panel and becomes that panel.
    assert_eq!(panels_in_order(&tree), panels(&[1, 3]));
    match tree.as_ref().unwrap() {
        DockNode::Split { children } => assert!(matches!(children[1], DockNode::Panel(_))),
        DockNode::Panel(_) => panic!("the root stays a split"),
    }
    let node = tree.as_mut().unwrap();
    assert!(!remove_panel_from_tree(node, PanelId(9)));
    assert!(remove_panel_from_tree(node, PanelId(1)));
    assert_eq!(panels_in_order(&tree), panels(&[3]));
    assert!(matches!(tree, Some(DockNode::Panel(_))));
}

#[test]
fn panel_of_tab_ids() {
    let mut panel = Panel::new();
    assert_eq!(panel.active_tab(), None);
    panel.set_active_tab(TabId(3));
    assert_eq!(panel.active_tab(), Some(TabId(3)));
}

#[test]
fn key_presses_of_an_editor() {
    let down = KeyPress { arrow: Some(Arrow::Down), escape: false, key_s: false, alt: true, control: false, meta: false };
    let plan = plan_key_down(down, -100, 20, -1000);
    assert_eq!(plan.repeats, 5);
    assert_eq!(plan.scroll_y, Some(-120));
    let up = KeyPress { arrow: Some(Arrow::Up), ..down };
    assert_eq!(plan_key_down(up, -10, 20, -1000).scroll_y, Some(0));
    let control = KeyPress { arrow: Some(Arrow::Up), escape: false, key_s: false, alt: false, control: true, meta: false };
    let plan = plan_key_down(control, -10, 20, -1000);
    assert_eq!((plan.repeats, plan.scroll_y), (3, None));
    let plain = KeyPress { arrow: None, escape: false, key_s: false, alt: false, control: false, meta: false };
    assert_eq!(plan_key_down(plain, 0, 20, -1000).repeats, 1);
    let escape = KeyPress { arrow: None, escape: true, key_s: false, alt: false, control: false, meta: false };
    assert_eq!(plan_key_down(escape, 0, 20, -1000).repeats, 0);
    let save = KeyPress { arrow: None, escape: false, key_s: true, alt: false, control: true, meta: false };
    assert_eq!(plan_key_down(save, 0, 20, -1000).repeats, 0);
    let meta_save = KeyPress { control: false, meta: true, ..save };
    assert_eq!(plan_key_down(meta_save, 0, 20, -1000).repeats, 0);
    let meta_s = KeyPress { key_s: false, ..meta_save };
    assert_eq!(plan_key_down(meta_s, 0, 20, -1000).repeats, 1);
}

#[test]
fn actions_on_an_editor() {
    let tab = TabId(8);
    let mouse_down = plan_reduce(tab, EditorActionKind::MouseDown, false, false, false, 0);
    assert!(mouse_down.reaches_editor && mouse_down.focus_panel && mouse_down.focus_panels_view);
    assert_eq!(mouse_down.channel, ChannelSelection::Select(Channel::Global));
    let focused_down = plan_reduce(tab, EditorActionKind::MouseDown, true, true, true, 0);
    assert_eq!(focused_down.channel, ChannelSelection::Select(Channel::follow_tab(tab)));
    let other_editor = plan_reduce(tab, EditorActionKind::MouseDown, true, true, false, 0);
    assert_eq!(other_editor.channel, ChannelSelection::Select(Channel::AllTabs));
    let key_down = plan_reduce(tab, EditorActionKind::KeyDown, true, true, true, 0);
    assert!(!key_down.reaches_editor);
    assert_eq!(key_down.channel, ChannelSelection::Silence);
    let key_up = plan_reduce(tab, EditorActionKind::KeyUp, true, true, true, 0);
    assert!(key_up.reaches_editor);
    let moved = plan_reduce(tab, EditorActionKind::MouseMove, true, false, true, 0);
    assert!(!moved.reaches_editor);
    let mut selection = ChannelSelection::Current;
    selection.select(Channel::Global);
    assert_eq!(selection, ChannelSelection::Select(Channel::Global));
}

fn counter(id: &str, runs: Rc<Cell<u32>>) -> FnCommand<impl Fn()> {
    FnCommand::new(id.to_string(), "Counter".to_string(), true, CommandMatching::Text, move || {
        runs.set(runs.get() + 1)
    })
}

#[test]
fn commands_run_by_id() {
    let first = Rc::new(Cell::new(0));
    let second = Rc::new(Cell::new(0));
    let mut commands = EditorCommands::default();
    commands.register(counter("count", first.clone()));
    commands.trigger("count");
    commands.trigger("missing");
    assert_eq!(first.get(), 1);
    // Registering under the same id replaces the command.
    commands.register(counter("count", second.clone()));
    commands.trigger("count");
    assert_eq!((first.get(), second.get()), (1, 1));
    commands.register(counter("other", first.clone()));
    commands.trigger("other");
    commands.trigger("count");
    assert_eq!((first.get(), second.get()), (2, 2));
    assert!(CommandRunContext::default().focus_previous_view);
}

#[test]
fn commands_made_of_parts() {
    let split = FnCommand::new("split-panel".to_string(), "Split Panel".to_string(), true, CommandMatching::Text, || {});
    assert!(split.is_visible());
    assert_eq!((split.id(), split.text()), ("split-panel", "Split Panel"));
    assert!(split.matches("split"));
    assert!(!split.matches("Split"));
    let settings = FnCommand::new(
        "open-settings".to_string(),
        "Open Settings".to_string(),
        true,
        CommandMatching::TextIgnoringCase,
        || {},
    );
    assert!(settings.matches("SETT"));
    let toggle = FnCommand::new(
        "toggle-commander".to_string(),
        "Toggle Commander".to_string(),
        false,
        CommandMatching::Never,
        || {},
    );
    assert!(!toggle.is_visible());
    assert!(!toggle.matches(""));
    let mut ctx = CommandRunContext::default();
    toggle.run(&mut ctx);
    assert!(ctx.focus_previous_view);
}

fn theme() -> IconTheme {
    let icons = vec![
        IconSource { svg: vec![1], extensions: vec!["rs".to_string(), "toml".to_string()] },
        IconSource { svg: vec![2], extensions: vec!["md".to_string(), "rs".to_string()] },
    ];
    IconTheme::new(&vec![0], &vec![8], &vec![9], &icons)
}

#[test]
fn icons_of_files_and_folders() {
    let theme = theme();
    assert_eq!(theme.get_file(&"/p/Cargo.toml".to_string()).svg, vec![1]);
    // A later icon takes an extension from an earlier one.
    assert_eq!(theme.get_file(&"/p/main.rs".to_string()).svg, vec![2]);
    // Extensions are compared in lower case.
    assert_eq!(theme.get_file(&"/p/README.MD".to_string()).svg, vec![2]);
    assert_eq!(theme.get_file(&"/p/Makefile".to_string()).svg, vec![0]);
    assert_eq!(theme.get_file(&"/p/a.zip".to_string()).svg, vec![0]);
    assert_eq!(theme.get_folder(true).svg, vec![8]);
    assert_eq!(theme.get_folder(false).svg, vec![9]);
    let icons = FileIcons::new(theme);
    assert_eq!(icons.get_file(&"x.toml".to_string()).svg, vec![1]);
    assert_eq!(icons.get_folder(false).svg, vec![9]);
    assert_eq!(icons.active_theme().get_folder(true).svg, vec![8]);
}

#[test]
fn ctrl_tab_opens_cycles_and_commits() {
    let history = tabs(&[5, 6, 7]);
    let mut switcher = None;
    assert!(!cycle_tab_switcher(&mut switcher, &tabs(&[5]), false));
    assert!(switcher.is_none());
    assert!(cycle_tab_switcher(&mut switcher, &history, false));
    assert_eq!(switcher.as_ref().unwrap().selected_tab(), Some(TabId(6)));
    assert!(!cycle_tab_switcher(&mut switcher, &history, false));
    assert_eq!(switcher.as_ref().unwrap().selected_tab(), Some(TabId(7)));
    assert_eq!(commit_tab_switcher(&mut switcher), Some(TabId(7)));
    assert!(switcher.is_none());
    assert_eq!(commit_tab_switcher(&mut switcher), None);
}

#[test]
fn key_presses_reach_only_the_focused_editor() {
    let tab = TabId(3);
    let down = KeyPress { arrow: Some(Arrow::Down), escape: false, key_s: false, alt: true, control: false, meta: false };
    let focused = reduce_key_down(tab, true, true, down, -100, 20, -1000);
    assert_eq!((focused.repeats, focused.scroll_y), (5, Some(-120)));
    assert_eq!(focused.channel, ChannelSelection::Select(Channel::follow_tab(tab)));
    let unfocused = reduce_key_down(tab, true, false, down, -100, 20, -1000);
    assert_eq!((unfocused.repeats, unfocused.scroll_y), (0, None));
    assert_eq!(unfocused.channel, ChannelSelection::Silence);
    let other_panel = reduce_key_down(tab, false, true, down, -100, 20, -1000);
    assert_eq!((other_panel.repeats, other_panel.scroll_y), (0, None));
    let escape = KeyPress { arrow: None, escape: true, ..down };
    let ignored = reduce_key_down(tab, true, true, KeyPress { alt: false, ..escape }, 0, 20, -1000);
    assert_eq!((ignored.repeats, ignored.channel), (0, ChannelSelection::Silence));
}

#[test]
fn editor_focus_follows_panel_and_active_tab() {
    let focus = editor_focus(EditorView::Panels, 1, 1, Some(TabId(7)), TabId(7));
    assert_eq!(focus, EditorFocus { panels_view: true, panel: true, editor: true });
    let other_tab = editor_focus(EditorView::Panels, 1, 1, Some(TabId(8)), TabId(7));
    assert_eq!(other_tab, EditorFocus { panels_view: true, panel: true, editor: false });
    let other_panel = editor_focus(EditorView::Commander, 0, 1, Some(TabId(7)), TabId(7));
    assert_eq!(other_panel, EditorFocus { panels_view: false, panel: false, editor: false });
    let no_tab = editor_focus(EditorView::FilesExplorer, 2, 2, None, TabId(7));
    assert_eq!(no_tab, EditorFocus { panels_view: false, panel: true, editor: false });
}

#[test]
fn removing_a_panel_keeps_the_others_in_order() {
    let mut lone = dock_panel(4);
    // A tree that is one panel is not a split, so nothing is removed.
    assert!(!remove_panel_from_tree(&mut lone, PanelId(4)));
    assert_eq!(panels_in_order(&Some(lone)), panels(&[4]));
    let mut tree = Some(DockNode::Split {
        children: vec![
            DockNode::Split { children: vec![dock_panel(1), dock_panel(2), dock_panel(3)] },
            dock_panel(4),
            dock_panel(5),
        ],
    });
    assert!(remove_panel_from_tree(tree.as_mut().unwrap(), PanelId(2)));
    assert_eq!(panels_in_order(&tree), panels(&[1, 3, 4, 5]));
    assert!(remove_panel_from_tree(tree.as_mut().unwrap(), PanelId(4)));
    assert_eq!(panels_in_order(&tree), panels(&[1, 3, 5]));
    assert!(!remove_panel_from_tree(tree.as_mut().unwrap(), PanelId(4)));
    assert_eq!(panels_in_order(&tree), panels(&[1, 3, 5]));
}

#[test]
fn focusing_next_then_previous_panel_comes_back() {
    let order = panels(&[1, 2, 3]);
    let mut focused = Some(PanelId(2));
    assert_eq!(focus_next_panel(&mut focused, &order), Some(PanelId(3)));
    assert_eq!(focused, Some(PanelId(3)));
    assert_eq!(focus_next_panel(&mut focused, &order), None);
    assert_eq!(focused, Some(PanelId(3)));
    assert_eq!(focus_previous_panel(&mut focused, &order), Some(PanelId(2)));
    assert_eq!(focused, Some(PanelId(2)));
    let mut none = None;
    assert_eq!(focus_previous_panel(&mut none, &order), None);
    assert_eq!(none, None);
    let mut first = Some(PanelId(1));
    assert_eq!(focus_previous_panel(&mut first, &order), None);
    assert_eq!(first, Some(PanelId(1)));
}

fn listed_command(id: &str, text: &str, visible: bool, matching: CommandMatching) -> FnCommand<Box<dyn Fn()>> {
    let action: Box<dyn Fn()> = Box::new(|| {});
    FnCommand::new(id.to_string(), text.to_string(), visible, matching, action)
}

#[test]
fn commander_lists_visible_matching_commands() {
    let mut commands = EditorCommands::default();
    commands.register(listed_command("split-panel", "Split Panel", true, CommandMatching::Text));
    commands.register(listed_command("toggle-commander", "Toggle Commander", false, CommandMatching::Never));
    commands.register(listed_command("open-settings", "Open Settings", true, CommandMatching::TextIgnoringCase));
    assert_eq!(commands.visible_commands(""), vec!["split-panel".to_string(), "open-settings".to_string()]);
    assert_eq!(commands.visible_commands("split"), vec!["split-panel".to_string()]);
    assert_eq!(commands.visible_commands("SETT"), vec!["open-settings".to_string()]);
    assert_eq!(commands.visible_commands("toggle"), Vec::<String>::new());
    assert_eq!(commands.visible_commands("p"), vec!["split-panel".to_string(), "open-settings".to_string()]);
}

#[test]
fn closing_a_panel_moves_the_focus() {
    let order = panels(&[1, 2, 3]);
    let mut focused = Some(PanelId(3));
    assert!(close_panel_focus(&order, PanelId(3), &mut focused));
    assert_eq!(focused, Some(PanelId(2)));
    let mut focused = Some(PanelId(1));
    assert!(close_panel_focus(&order, PanelId(1), &mut focused));
    assert_eq!(focused, Some(PanelId(2)));
    let mut focused = Some(PanelId(1));
    assert!(close_panel_focus(&order, PanelId(2), &mut focused));
    assert_eq!(focused, Some(PanelId(1)));
    let single = panels(&[4]);
    let mut focused = Some(PanelId(4));
    assert!(!close_panel_focus(&single, PanelId(4), &mut focused));
    assert_eq!(focused, Some(PanelId(4)));
}

#[test]
fn a_closed_tab_leaves_history_and_switcher() {
    let mut history = tabs(&[3, 1, 2]);
    let mut switcher = Some(TabSwitcherState { order: tabs(&[3, 1, 2]), selected: 2 });
    forget_closed_tab(&mut history, &mut switcher, TabId(2));
    assert_eq!(history, tabs(&[3, 1]));
    assert_eq!(switcher, Some(TabSwitcherState { order: tabs(&[3, 1]), selected: 1 }));
    let mut none = None;
    forget_closed_tab(&mut history, &mut none, TabId(3));
    assert_eq!(history, tabs(&[1]));
    assert_eq!(none, None);
}
