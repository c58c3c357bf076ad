//! The tree of the file explorer, as the explorer component keeps it.
pub use crate::components::file_explorer::{FlatItem, FolderState, TreeItem};
