pub mod file_explorer;
pub mod commander;
