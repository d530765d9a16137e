//! A multi-session orchestrator: many long-lived interactive assistant
//! processes run side by side, each in a working copy of its own.
//!
//! This crate is the core of the orchestrator. It decides; it does not act.
//! It keeps the registry of sessions and their bounded output buffers, it
//! knows which commands create, commit and remove a workspace and what their
//! outcomes mean, it maps the output of a child to status changes and
//! events, and it picks the automatic replies. Every function is verified
//! against its contract; the few calls that leave the crate stand in
//! [`outside`].

pub mod auto_yes;
pub mod error;
pub mod events;
pub mod git_worktree;
pub mod manager;
pub mod outside;
pub mod process;
pub mod session;
pub mod text;

pub use auto_yes::AutoYesManager;
pub use error::SessionError;
pub use events::{DiffStats, SessionEvent, SessionInfo};
pub use git_worktree::GitWorktree;
pub use manager::SessionManager;
pub use process::ProcessManager;
pub use session::{Session, SessionConfig, SessionStatus};
