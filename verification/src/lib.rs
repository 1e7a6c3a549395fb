//! The logic of a terminal explorer for Git worktrees and local branches.

pub mod app;
pub mod clock;
pub mod commits;
pub mod control;
pub mod deletion;
pub mod discovery;
pub mod error;
pub mod git;
pub mod history;
pub mod keys;
pub mod layout;
pub mod objects;
pub mod order;
pub mod path;
pub mod render;
pub mod screen;
pub mod status;
pub mod text;
pub mod tree;
pub mod widget;
