//! Decision logic of a tool that runs a coding agent inside throw-away git
//! worktrees: naming, parsing git's worktree listing, template rendering and
//! the feature workflow, all free of I/O.
pub mod agent;
pub mod commands;
pub mod config;
pub mod error;
pub mod flow;
pub mod git;
pub mod naming;
pub mod paths;
pub mod render;
pub mod session;
pub mod templates;
pub mod text;
