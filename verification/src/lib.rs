//! A terminal workspace browser: file explorer, file and diff viewer, quick-open
//! search, git status and embedded terminals. This crate holds the verified model
//! of all of its state and rules; the binary around it performs the I/O.
pub mod text;
pub mod clock;
pub mod sort;
pub mod paths;
pub mod search;
pub mod git;
pub mod tree;
pub mod theme;
pub mod viewer;
pub mod ui;
pub mod term;
pub mod workbench;
pub mod input;
pub mod route;
pub mod pointer;
pub mod events;
pub mod screen;
pub mod watch;
pub mod syntax;
