pub mod local;
