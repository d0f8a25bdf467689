//! Core logic of a terminal overview of open GitHub pull requests: repository
//! addresses, the saved repository list, the key table, GitHub's answer, the
//! screen state and the text of the tables.
pub mod config;
pub mod event;
pub mod github;
pub mod repo;
pub mod state;
pub mod text;
pub mod ui;
