pub mod chars;
pub mod commander;
pub mod commands;
pub mod components;
pub mod file_explorer;
pub mod fs;
pub mod global_defaults;
pub mod hooks;
pub mod lsp;
pub mod pairs;
pub mod panels;
pub mod parser;
pub mod paths;
pub mod rope;
pub mod state;
