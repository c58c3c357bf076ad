use valin::components::commander::{is_command_shown, options_height, select_down, select_up};
use valin::components::file_explorer::{
    folder_items, next_focused_item, previous_focused_item, run_tree_task, FlatItem, FolderState, TreeItem,
    TreeTask,
};
use ropey::Rope;
use valin::hooks::use_editable::EditorData;
use valin::state::{AppState, EditorView};

fn rows(items: &[FlatItem]) -> Vec<(String, bool, bool, usize)> {
    items
        .iter()
        .map(|i| (i.path.clone(), i.is_opened, i.is_file, i.depth))
        .collect()
}

fn file(path: &str) -> TreeItem {
    TreeItem::File { path: path.to_string() }
}

fn closed(path: &str) -> TreeItem {
    TreeItem::Folder { path: path.to_string(), state: FolderState::Closed }
}

#[test]
fn flat_rows_of_a_tree() {
    let tree = TreeItem::Folder {
        path: "/p".to_string(),
        state: FolderState::Opened(vec![closed("/p/src"), file("/p/a.txt")]),
    };
    assert_eq!(
        rows(&tree.flat(0)),
        vec![
            ("/p".to_string(), true, false, 0),
            ("/p/src".to_string(), false, false, 1),
            ("/p/a.txt".to_string(), false, true, 1),
        ]
    );
    assert_eq!(rows(&file("/x").flat(3)), vec![("/x".to_string(), false, true, 3)]);
}

#[test]
fn opening_a_nested_folder() {
    let mut tree = TreeItem::Folder {
        path: "/p".to_string(),
        state: FolderState::Opened(vec![closed("/p/src"), file("/p/a.txt")]),
    };
    tree.set_folder_state(&"/p/src".to_string(), &FolderState::Opened(vec![file("/p/src/lib.rs")]));
    assert_eq!(
        rows(&tree.flat(0)),
        vec![
            ("/p".to_string(), true, false, 0),
            ("/p/src".to_string(), true, false, 1),
            ("/p/src/lib.rs".to_string(), false, true, 2),
            ("/p/a.txt".to_string(), false, true, 1),
        ]
    );
    // Paths compare as paths: a trailing slash names the same folder.
    tree.set_folder_state(&"/p/src/".to_string(), &FolderState::Closed);
    assert_eq!(rows(&tree.flat(0)).len(), 3);
    // A folder that is not in the tree changes nothing.
    tree.set_folder_state(&"/q".to_string(), &FolderState::Closed);
    assert_eq!(rows(&tree.flat(0)).len(), 3);
    tree.set_folder_state(&"/p".to_string(), &FolderState::Closed);
    assert_eq!(rows(&tree.flat(0)), vec![("/p".to_string(), false, false, 0)]);
    assert_eq!(tree.path(), "/p");
}

#[test]
fn folders_come_before_files() {
    let entries = vec![
        ("/p/b.txt".to_string(), true),
        ("/p/src".to_string(), false),
        ("/p/a.txt".to_string(), true),
        ("/p/docs".to_string(), false),
    ];
    let items = folder_items(&entries);
    let paths: Vec<&str> = items.iter().map(|i| i.path().as_str()).collect();
    assert_eq!(paths, vec!["/p/src", "/p/docs", "/p/b.txt", "/p/a.txt"]);
    assert!(matches!(items[0], TreeItem::Folder { state: FolderState::Closed, .. }));
    assert!(matches!(items[3], TreeItem::File { .. }));
}

#[test]
fn focus_moves_through_rows() {
    assert_eq!(next_focused_item(0, 3), 1);
    assert_eq!(next_focused_item(2, 3), 2);
    assert_eq!(previous_focused_item(2), 1);
    assert_eq!(previous_focused_item(0), 0);
}

#[test]
fn commander_selection_wraps() {
    assert_eq!(select_down(0, 3), 1);
    assert_eq!(select_down(2, 3), 0);
    assert_eq!(select_down(5, 0), 5);
    assert_eq!(select_up(1, 3), 0);
    assert_eq!(select_up(0, 3), 2);
}

#[test]
fn commander_lists_and_sizes() {
    assert!(is_command_shown(true, true, false));
    assert!(!is_command_shown(true, false, true));
    assert!(!is_command_shown(false, true, false));
    assert!(is_command_shown(false, true, true));
    assert_eq!(options_height(0), 30);
    assert_eq!(options_height(3), 90);
    assert_eq!(options_height(6), 180);
    assert_eq!(options_height(7), 200);
}

#[test]
fn tree_height_and_depth_check() {
    let file = TreeItem::File { path: "a.rs".to_string() };
    assert_eq!(file.height(), Some(0));
    let closed = TreeItem::Folder { path: "c".to_string(), state: FolderState::Closed };
    assert_eq!(closed.height(), Some(0));
    let inner = TreeItem::Folder {
        path: "src/inner".to_string(),
        state: FolderState::Opened(vec![TreeItem::File { path: "src/inner/x.rs".to_string() }]),
    };
    let tree = TreeItem::Folder {
        path: "src".to_string(),
        state: FolderState::Opened(vec![file, inner, closed]),
    };
    assert_eq!(tree.height(), Some(2));
    assert!(tree.fits_depth(0));
    assert!(tree.fits_depth(usize::MAX - 2));
    assert!(!tree.fits_depth(usize::MAX - 1));
}

#[test]
fn tree_tasks_open_and_close_folders_and_files() {
    let mut state = AppState::new();
    let mut tree = Some(TreeItem::Folder {
        path: "/p".to_string(),
        state: FolderState::Opened(vec![TreeItem::Folder { path: "/p/src".to_string(), state: FolderState::Closed }]),
    });
    let mut focused = 0;
    let items = vec![TreeItem::File { path: "/p/src/main.rs".to_string() }];
    run_tree_task(&mut state, &mut tree, &mut focused, TreeTask::OpenFolder { path: "/p/src".to_string(), items: Some(items) }, 1);
    assert_eq!(focused, 1);
    assert_eq!(*state.focused_view(), EditorView::FilesExplorer);
    assert_eq!(state.previous_focused_view, Some(EditorView::CodeEditor));
    let listed: Vec<(String, usize)> = tree.as_ref().unwrap().flat(0).into_iter().map(|r| (r.path, r.depth)).collect();
    assert_eq!(
        listed,
        vec![("/p".to_string(), 0), ("/p/src".to_string(), 1), ("/p/src/main.rs".to_string(), 2)]
    );
    // A folder that could not be read changes nothing.
    run_tree_task(&mut state, &mut tree, &mut focused, TreeTask::OpenFolder { path: "/p".to_string(), items: None }, 0);
    assert_eq!(tree.as_ref().unwrap().flat(0).len(), 3);
    assert_eq!(state.previous_focused_view, Some(EditorView::CodeEditor));
    let editor = EditorData::new("/p/src/main.rs".to_string(), Rope::from_str("fn main() {}"), (0, 0), "/p".to_string());
    run_tree_task(&mut state, &mut tree, &mut focused, TreeTask::OpenFile { editor: Some(editor) }, 2);
    assert_eq!(state.panels[0].tabs.len(), 1);
    assert_eq!(state.panels[0].active_tab, Some(0));
    assert_eq!(focused, 2);
    run_tree_task(&mut state, &mut tree, &mut focused, TreeTask::CloseFolder { path: "/p/src".to_string() }, 1);
    assert_eq!(tree.as_ref().unwrap().flat(0).len(), 2);
    assert_eq!(state.panels[0].tabs.len(), 1);
}
