//! The tree of the file explorer: folders that are opened or closed, and the
//! flat list of rows that the explorer shows.
use vstd::prelude::*;
use crate::paths::{path_eq, path_has_prefix, path_starts_with, paths_equal};
use crate::hooks::use_editable::EditorData;
use crate::state::{pushed_position, pushed_tabs, AppState, EditorView, PanelTab};

verus! {

pub enum FolderState {
    Opened(Vec<TreeItem>),
    Closed,
}

pub enum TreeItem {
    Folder { path: String, state: FolderState },
    File { path: String },
}

/// A row of the explorer.
pub struct FlatItem {
    pub path: String,
    pub is_opened: bool,
    pub is_file: bool,
    pub depth: usize,
}

/// The tree as a value.
pub enum TreeView {
    Folder(Seq<char>, FolderView),
    File(Seq<char>),
}

pub enum FolderView {
    Opened(Seq<TreeView>),
    Closed,
}

pub open spec fn tree_view(item: TreeItem) -> TreeView
    decreases item,
{
    match item {
        TreeItem::Folder { path, state } => TreeView::Folder(path@, folder_view(state)),
        TreeItem::File { path } => TreeView::File(path@),
    }
}

pub open spec fn folder_view(state: FolderState) -> FolderView
    decreases state,
{
    match state {
        FolderState::Opened(items) => FolderView::Opened(tree_views(items@)),
        FolderState::Closed => FolderView::Closed,
    }
}

pub open spec fn tree_views(items: Seq<TreeItem>) -> Seq<TreeView>
    decreases items,
{
    if items.len() == 0 {
        Seq::empty()
    } else {
        tree_views(items.drop_last()).push(tree_view(items.last()))
    }
}

pub open spec fn view_path(item: TreeView) -> Seq<char> {
    match item {
        TreeView::Folder(path, _) => path,
        TreeView::File(path) => path,
    }
}

/// Sets the state of the folder `folder_path`: the walk goes down only into
/// opened folders whose path begins `folder_path`.
pub open spec fn with_folder_state(item: TreeView, folder_path: Seq<char>, folder_state: FolderView) -> TreeView
    decreases item,
{
    match item {
        TreeView::Folder(path, state) => {
            if path_eq(path, folder_path) {
                TreeView::Folder(path, folder_state)
            } else if path_starts_with(folder_path, path) {
                match state {
                    FolderView::Opened(items) => TreeView::Folder(
                        path,
                        FolderView::Opened(with_folder_state_all(items, folder_path, folder_state)),
                    ),
                    FolderView::Closed => item,
                }
            } else {
                item
            }
        },
        TreeView::File(_) => item,
    }
}

pub open spec fn with_folder_state_all(items: Seq<TreeView>, folder_path: Seq<char>, folder_state: FolderView) -> Seq<TreeView>
    decreases items,
{
    if items.len() == 0 {
        Seq::empty()
    } else {
        with_folder_state_all(items.drop_last(), folder_path, folder_state).push(
            with_folder_state(items.last(), folder_path, folder_state),
        )
    }
}

/// A row as a value: path, opened, file, depth.
pub open spec fn flat_row(item: TreeView, depth: int) -> (Seq<char>, bool, bool, int) {
    match item {
        TreeView::File(path) => (path, false, true, depth),
        TreeView::Folder(path, state) => (path, !(state is Closed), false, depth),
    }
}

/// The rows of a tree: the item, then the rows of the items of an opened
/// folder, one level deeper.
pub open spec fn flat_rows(item: TreeView, depth: int) -> Seq<(Seq<char>, bool, bool, int)>
    decreases item,
{
    seq![flat_row(item, depth)] + match item {
        TreeView::Folder(_, FolderView::Opened(items)) => flat_rows_all(items, depth + 1),
        _ => Seq::empty(),
    }
}

pub open spec fn flat_rows_all(items: Seq<TreeView>, depth: int) -> Seq<(Seq<char>, bool, bool, int)>
    decreases items,
{
    if items.len() == 0 {
        Seq::empty()
    } else {
        flat_rows_all(items.drop_last(), depth) + flat_rows(items.last(), depth)
    }
}

/// How deep a tree goes.
pub open spec fn tree_height(item: TreeView) -> nat
    decreases item,
{
    match item {
        TreeView::Folder(_, FolderView::Opened(items)) => 1 + trees_height(items),
        _ => 0,
    }
}

pub open spec fn trees_height(items: Seq<TreeView>) -> nat
    decreases items,
{
    if items.len() == 0 {
        0
    } else {
        let a = trees_height(items.drop_last());
        let b = tree_height(items.last());
        if a >= b { a } else { b }
    }
}

pub open spec fn flat_item_view(item: FlatItem) -> (Seq<char>, bool, bool, int) {
    (item.path@, item.is_opened, item.is_file, item.depth as int)
}

proof fn lemma_tree_views(items: Seq<TreeItem>)
    ensures
        tree_views(items).len() == items.len(),
        forall|i: int| 0 <= i < items.len() ==> #[trigger] tree_views(items)[i] == tree_view(items[i]),
    decreases items.len(),
{
    if items.len() > 0 {
        lemma_tree_views(items.drop_last());
    }
}

proof fn lemma_trees_height(items: Seq<TreeView>, i: int)
    requires
        0 <= i < items.len(),
    ensures
        tree_height(items[i]) <= trees_height(items),
    decreases items.len(),
{
    if i < items.len() - 1 {
        lemma_trees_height(items.drop_last(), i);
    }
}

fn copy_string(s: &String) -> (r: String)
    ensures
        r@ == s@,
{
    s.as_str().to_owned()
}

/// A listed entry of a folder (its path and whether it is a file) as an item
/// of the tree; a folder starts closed.
pub open spec fn entry_view(entry: (Seq<char>, bool)) -> TreeView {
    if entry.1 {
        TreeView::File(entry.0)
    } else {
        TreeView::Folder(entry.0, FolderView::Closed)
    }
}

/// The items of the entries that are files (`is_file`) or folders, in order.
pub open spec fn entries_of_kind(entries: Seq<(Seq<char>, bool)>, is_file: bool) -> Seq<TreeView>
    decreases entries.len(),
{
    if entries.len() == 0 {
        Seq::empty()
    } else if entries.last().1 == is_file {
        entries_of_kind(entries.drop_last(), is_file).push(entry_view(entries.last()))
    } else {
        entries_of_kind(entries.drop_last(), is_file)
    }
}

pub open spec fn entry_views(entries: Seq<(String, bool)>) -> Seq<(Seq<char>, bool)> {
    Seq::new(entries.len(), |i: int| (entries[i].0@, entries[i].1))
}

/// The items of a folder from the entries that were read from it: the
/// folders first, then the files, each in the order in which they were read.
pub fn folder_items(entries: &Vec<(String, bool)>) -> (items: Vec<TreeItem>)
    ensures
        tree_views(items@) == entries_of_kind(entry_views(entries@), false) + entries_of_kind(
            entry_views(entries@),
            true,
        ),
{
    let ghost views = entry_views(entries@);
    let mut items: Vec<TreeItem> = Vec::new();
    let mut k: usize = 0;
    while k < entries.len()
        invariant
            k <= entries@.len(),
            views == entry_views(entries@),
            tree_views(items@) == entries_of_kind(views.take(k as int), false),
        decreases entries@.len() - k,
    {
        let ghost before = items@;
        proof {
            assert(views[k as int] == (entries@[k as int].0@, entries@[k as int].1));
        }
        if !entries[k].1 {
            items.push(TreeItem::Folder { path: copy_string(&entries[k].0), state: FolderState::Closed });
            proof {
                assert(items@.drop_last() =~= before);
                assert(tree_view(items@.last()) == entry_view(views[k as int]));
                assert(tree_views(items@) == tree_views(before).push(entry_view(views[k as int])));
            }
        }
        proof {
            assert(views.take(k + 1).drop_last() =~= views.take(k as int));
            assert(views.take(k + 1).last() == views[k as int]);
        }
        k = k + 1;
    }
    proof {
        assert(views.take(k as int) =~= views);
    }
    let ghost folders = tree_views(items@);
    let mut k: usize = 0;
    while k < entries.len()
        invariant
            k <= entries@.len(),
            views == entry_views(entries@),
            folders == entries_of_kind(views, false),
            tree_views(items@) == folders + entries_of_kind(views.take(k as int), true),
        decreases entries@.len() - k,
    {
        let ghost before = items@;
        proof {
            assert(views[k as int] == (entries@[k as int].0@, entries@[k as int].1));
        }
        if entries[k].1 {
            items.push(TreeItem::File { path: copy_string(&entries[k].0) });
            proof {
                assert(items@.drop_last() =~= before);
                assert(tree_view(items@.last()) == entry_view(views[k as int]));
                assert(tree_views(items@) == tree_views(before).push(entry_view(views[k as int])));
                assert((folders + entries_of_kind(views.take(k as int), true)).push(
                    entry_view(views[k as int]),
                ) =~= folders + entries_of_kind(views.take(k as int), true).push(entry_view(views[k as int])));
            }
        }
        proof {
            assert(views.take(k + 1).drop_last() =~= views.take(k as int));
            assert(views.take(k + 1).last() == views[k as int]);
        }
        k = k + 1;
    }
    proof {
        assert(views.take(k as int) =~= views);
    }
    items
}

impl FolderState {
    /// A copy of the state, with copies of all its items.
    pub fn deep_copy(&self) -> (copy: FolderState)
        ensures
            folder_view(copy) == folder_view(*self),
        decreases self,
    {
        match self {
            FolderState::Closed => FolderState::Closed,
            FolderState::Opened(items) => {
                let mut copies: Vec<TreeItem> = Vec::new();
                let mut k: usize = 0;
                while k < items.len()
                    invariant
                        k <= items.len(),
                        tree_views(copies@) == tree_views(items@.take(k as int)),
                        *self == FolderState::Opened(*items),
                    decreases items.len() - k,
                {
                    proof {
                        assert(decreases_to!(*self => (*self)->Opened_0));
                        assert(items@.take(k + 1).drop_last() =~= items@.take(k as int));
                    }
                    let copy = items[k].deep_copy();
                    let ghost before = copies@;
                    copies.push(copy);
                    assert(copies@.drop_last() =~= before);
                    k = k + 1;
                }
                assert(items@.take(items.len() as int) =~= items@);
                FolderState::Opened(copies)
            },
        }
    }
}

impl TreeItem {
    /// A copy of the item, with copies of all its items.
    pub fn deep_copy(&self) -> (copy: TreeItem)
        ensures
            tree_view(copy) == tree_view(*self),
        decreases self,
    {
        match self {
            TreeItem::File { path } => TreeItem::File { path: copy_string(path) },
            TreeItem::Folder { path, state } => {
                proof {
                    assert(decreases_to!(*self => (*self)->state));
                }
                TreeItem::Folder { path: copy_string(path), state: state.deep_copy() }
            },
        }
    }

    pub fn path(&self) -> (path: &String)
        ensures
            path@ == view_path(tree_view(*self)),
    {
        match self {
            TreeItem::Folder { path, .. } => path,
            TreeItem::File { path } => path,
        }
    }

    /// Sets the state of the folder `folder_path` in the tree.
    pub fn set_folder_state(&mut self, folder_path: &String, folder_state: &FolderState)
        ensures
            tree_view(*final(self)) == with_folder_state(tree_view(*old(self)), folder_path@, folder_view(*folder_state)),
    {
        let mut owned = TreeItem::File { path: String::new() };
        std::mem::swap(&mut owned, self);
        *self = owned.with_folder_state(folder_path, folder_state);
    }

    fn with_folder_state(self, folder_path: &String, folder_state: &FolderState) -> (item: TreeItem)
        ensures
            tree_view(item) == with_folder_state(tree_view(self), folder_path@, folder_view(*folder_state)),
        decreases self,
    {
        let ghost initial = self;
        match self {
            TreeItem::Folder { path, state } => {
                if paths_equal(&path, folder_path) {
                    TreeItem::Folder { path, state: folder_state.deep_copy() }
                } else if path_has_prefix(folder_path, &path) {
                    match state {
                        FolderState::Opened(items) => {
                            proof {
                                assert(decreases_to!(initial => initial->state));
                            }
                            let items = Self::with_folder_state_all(items, folder_path, folder_state);
                            TreeItem::Folder { path, state: FolderState::Opened(items) }
                        },
                        FolderState::Closed => TreeItem::Folder { path, state: FolderState::Closed },
                    }
                } else {
                    TreeItem::Folder { path, state }
                }
            },
            TreeItem::File { path } => TreeItem::File { path },
        }
    }

    fn with_folder_state_all(items: Vec<TreeItem>, folder_path: &String, folder_state: &FolderState) -> (updated: Vec<TreeItem>)
        ensures
            tree_views(updated@) == with_folder_state_all(tree_views(items@), folder_path@, folder_view(*folder_state)),
        decreases items@,
    {
        let ghost initial = items@;
        proof {
            lemma_tree_views(initial);
        }
        if items.len() == 0 {
            return items;
        }
        let mut items = items;
        let last = items.pop().unwrap();
        proof {
            assert(items@ =~= initial.drop_last());
            assert(decreases_to!(initial => initial[initial.len() - 1]));
            lemma_tree_views(items@);
            assert(tree_views(items@) =~= tree_views(initial).drop_last());
        }
        let mut updated = Self::with_folder_state_all(items, folder_path, folder_state);
        let last = last.with_folder_state(folder_path, folder_state);
        let ghost before = updated@;
        updated.push(last);
        proof {
            assert(updated@.drop_last() =~= before);
        }
        updated
    }

    fn into_flat(self, depth: usize) -> (item: FlatItem)
        ensures
            flat_item_view(item) == flat_row(tree_view(self), depth as int),
    {
        match self {
            TreeItem::File { path } => FlatItem { path, is_file: true, is_opened: false, depth },
            TreeItem::Folder { path, state } => {
                let is_opened = match state {
                    FolderState::Closed => false,
                    FolderState::Opened(_) => true,
                };
                FlatItem { path, is_file: false, is_opened, depth }
            },
        }
    }

    /// How deep the tree goes, when that fits a `usize`.
    pub fn height(&self) -> (height: Option<usize>)
        ensures
            match height {
                Some(h) => h == tree_height(tree_view(*self)),
                None => tree_height(tree_view(*self)) > usize::MAX,
            },
        decreases self,
    {
        match self {
            TreeItem::Folder { state: FolderState::Opened(items), .. } => {
                proof {
                    lemma_tree_views(items@);
                }
                let mut acc: usize = 0;
                let mut k: usize = 0;
                while k < items.len()
                    invariant
                        k <= items.len(),
                        *self == (TreeItem::Folder { path: (*self)->Folder_path, state: FolderState::Opened(*items) }),
                        tree_views(items@).len() == items.len(),
                        forall|i: int| 0 <= i < items.len() ==> #[trigger] tree_views(items@)[i] == tree_view(items@[i]),
                        acc == trees_height(tree_views(items@).take(k as int)),
                    decreases items.len() - k,
                {
                    proof {
                        assert(decreases_to!(*self => (*self)->state));
                        assert(decreases_to!((*self)->state => ((*self)->state)->Opened_0));
                        assert(tree_views(items@).take(k + 1).drop_last() =~= tree_views(items@).take(k as int));
                        assert(tree_views(items@).take(k + 1).last() == tree_view(items@[k as int]));
                    }
                    match items[k].height() {
                        Some(h) => {
                            if h > acc {
                                acc = h;
                            }
                        },
                        None => {
                            proof {
                                lemma_trees_height(tree_views(items@), k as int);
                            }
                            return None;
                        },
                    }
                    k = k + 1;
                }
                proof {
                    assert(tree_views(items@).take(items.len() as int) =~= tree_views(items@));
                }
                acc.checked_add(1)
            },
            _ => Some(0),
        }
    }

    /// Whether the rows of the tree can be listed from `depth` (what `flat`
    /// asks of its depth).
    pub fn fits_depth(&self, depth: usize) -> (fits: bool)
        ensures
            fits == (depth + tree_height(tree_view(*self)) <= usize::MAX),
    {
        match self.height() {
            Some(h) => h <= usize::MAX - depth,
            None => false,
        }
    }

    /// The rows of the tree, starting at `depth`.
    pub fn flat(&self, depth: usize) -> (items: Vec<FlatItem>)
        requires
            depth + tree_height(tree_view(*self)) <= usize::MAX,
        ensures
            items@.map_values(|i: FlatItem| flat_item_view(i)) == flat_rows(tree_view(*self), depth as int),
        decreases self,
    {
        let mut flat_items = vec![self.deep_copy().into_flat(depth)];
        assert(flat_items@.map_values(|i: FlatItem| flat_item_view(i)) =~= seq![flat_row(tree_view(*self), depth as int)]);
        match self {
            TreeItem::Folder { state: FolderState::Opened(items), .. } => {
                proof {
                    lemma_tree_views(items@);
                }
                let ghost start = flat_items@.map_values(|i: FlatItem| flat_item_view(i));
                let mut k: usize = 0;
                while k < items.len()
                    invariant
                        k <= items.len(),
                        *self == (TreeItem::Folder { path: (*self)->Folder_path, state: FolderState::Opened(*items) }),
                        depth + tree_height(tree_view(*self)) <= usize::MAX,
                        tree_views(items@).len() == items.len(),
                        forall|i: int| 0 <= i < items.len() ==> #[trigger] tree_views(items@)[i] == tree_view(items@[i]),
                        flat_items@.map_values(|i: FlatItem| flat_item_view(i)) == start + flat_rows_all(
                            tree_views(items@).take(k as int),
                            depth + 1,
                        ),
                    decreases items.len() - k,
                {
                    proof {
                        assert(decreases_to!(*self => (*self)->state));
                        assert(decreases_to!((*self)->state => ((*self)->state)->Opened_0));
                        assert(tree_views(items@).take(k + 1).drop_last() =~= tree_views(items@).take(k as int));
                        assert(tree_views(items@)[k as int] == tree_view(items@[k as int]));
                        lemma_trees_height(tree_views(items@), k as int);
                    }
                    let inner_items = items[k].flat(depth + 1);
                    let ghost before = flat_items@;
                    let mut j: usize = 0;
                    while j < inner_items.len()
                        invariant
                            j <= inner_items.len(),
                            flat_items@.map_values(|i: FlatItem| flat_item_view(i)) == before.map_values(|i: FlatItem| flat_item_view(i))
                                + inner_items@.map_values(|i: FlatItem| flat_item_view(i)).take(j as int),
                        decreases inner_items.len() - j,
                    {
                        let row = &inner_items[j];
                        let ghost prior = flat_items@;
                        flat_items.push(FlatItem { path: copy_string(&row.path), is_opened: row.is_opened, is_file: row.is_file, depth: row.depth });
                        proof {
                            assert(flat_items@.map_values(|i: FlatItem| flat_item_view(i)) =~= prior.map_values(|i: FlatItem| flat_item_view(i)).push(flat_item_view(inner_items@[j as int])));
                            assert(inner_items@.map_values(|i: FlatItem| flat_item_view(i)).take(j + 1) =~= inner_items@.map_values(|i: FlatItem| flat_item_view(i)).take(j as int).push(flat_item_view(inner_items@[j as int])));
                        }
                        j = j + 1;
                    }
                    proof {
                        assert(inner_items@.map_values(|i: FlatItem| flat_item_view(i)).take(inner_items.len() as int) =~= inner_items@.map_values(|i: FlatItem| flat_item_view(i)));
                    }
                    k = k + 1;
                }
                assert(tree_views(items@).take(items.len() as int) =~= tree_views(items@));
            },
            _ => {
                assert(flat_rows(tree_view(*self), depth as int) =~= seq![flat_row(tree_view(*self), depth as int)]);
            },
        }
        flat_items
    }
}

/// The row focused after Arrow Down: the next one, unless it is the last.
pub fn next_focused_item(focused: usize, len: usize) -> (next: usize)
    requires
        len > 0,
    ensures
        next == if focused < len - 1 { focused + 1 } else { focused as int },
{
    if focused < len - 1 {
        focused + 1
    } else {
        focused
    }
}

/// The row focused after Arrow Up: the previous one, unless it is the first.
pub fn previous_focused_item(focused: usize) -> (previous: usize)
    ensures
        previous == if focused > 0 { focused - 1 } else { 0 },
{
    if focused > 0 {
        focused - 1
    } else {
        focused
    }
}


/// A task of the file explorer on one of its rows, with what its outside
/// work gave: the items of the folder to open (`None` when it could not be
/// read), or the editor of the file to open (`None` when it could not be
/// read).
pub enum TreeTask {
    OpenFolder { path: String, items: Option<Vec<TreeItem>> },
    CloseFolder { path: String },
    OpenFile { editor: Option<EditorData> },
}

/// Runs a task of the file explorer on the row `item_index`: the files
/// explorer gets the focus if it did not have it; an opened folder gets its
/// items, a closed folder loses them, and an opened file becomes a tab of the
/// focused panel, which shows it; the row becomes the focused one.  A task
/// whose reading failed changes neither the tree nor the panels.
pub fn run_tree_task(
    app_state: &mut AppState,
    tree: &mut Option<TreeItem>,
    focused_item: &mut usize,
    task: TreeTask,
    item_index: usize,
)
    requires
        old(app_state).focused_panel < old(app_state).panels@.len(),
    ensures
        final(app_state).focused_view == EditorView::FilesExplorer,
        final(app_state).previous_focused_view == if old(app_state).focused_view == EditorView::FilesExplorer {
            old(app_state).previous_focused_view
        } else {
            Some(old(app_state).focused_view)
        },
        *final(focused_item) == item_index,
        final(tree).is_some() == old(tree).is_some(),
        match task {
            TreeTask::OpenFolder { path, items } => match (items, *old(tree)) {
                (Some(items), Some(t)) => tree_view(final(tree).unwrap()) == with_folder_state(
                    tree_view(t),
                    path@,
                    FolderView::Opened(tree_views(items@)),
                ),
                _ => *final(tree) == *old(tree),
            },
            TreeTask::CloseFolder { path } => match *old(tree) {
                Some(t) => tree_view(final(tree).unwrap()) == with_folder_state(tree_view(t), path@, FolderView::Closed),
                None => final(tree).is_none(),
            },
            TreeTask::OpenFile { .. } => *final(tree) == *old(tree),
        },
        match task {
            TreeTask::OpenFile { editor: Some(editor) } => {
                let panel = old(app_state).focused_panel as int;
                let tab = PanelTab::TextEditor(editor);
                &&& final(app_state).panels@.len() == old(app_state).panels@.len()
                &&& final(app_state).panels@[panel].tabs@ == pushed_tabs(old(app_state).panels@[panel].tabs@, tab)
                &&& final(app_state).panels@[panel].active_tab == Some(
                    pushed_position(old(app_state).panels@[panel].tabs@, tab) as usize,
                )
                &&& forall|q: int| 0 <= q < old(app_state).panels@.len() && q != panel ==> #[trigger] final(app_state).panels@[q] == old(app_state).panels@[q]
            },
            _ => final(app_state).panels@ == old(app_state).panels@,
        },
        final(app_state).focused_panel == old(app_state).focused_panel,
        old(app_state).wf() ==> final(app_state).wf(),
{
    if app_state.focused_view != EditorView::FilesExplorer {
        app_state.set_focused_view(EditorView::FilesExplorer);
    }
    match task {
        TreeTask::OpenFolder { path, items } => {
            if let Some(items) = items {
                if let Some(t) = tree {
                    t.set_folder_state(&path, &FolderState::Opened(items));
                }
            }
        },
        TreeTask::CloseFolder { path } => {
            if let Some(t) = tree {
                t.set_folder_state(&path, &FolderState::Closed);
            }
        },
        TreeTask::OpenFile { editor } => {
            if let Some(editor) = editor {
                let panel = app_state.focused_panel;
                app_state.push_tab(PanelTab::TextEditor(editor), panel, true);
            }
        },
    }
    *focused_item = item_index;
}

} // verus!
