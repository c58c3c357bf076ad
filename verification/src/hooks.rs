pub mod use_computed;
pub mod use_editable;
pub mod use_manager;
