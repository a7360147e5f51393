//! A searchable archive of conversations.
//!
//! The archive is a SQLite database with a full-text index, kept in a local file or in
//! a replica of a libSQL sync server. This crate holds what the archive decides: the
//! statements it runs, what it makes of their results, how it names projects, escapes
//! queries and picks previews. It talks to no database itself. Every operation is a
//! [`task::Task`] that asks for one thing at a time and is resumed with the reply.

pub mod error;
pub mod filter;
pub mod fts;
pub mod laws;
pub mod messages;
pub mod project;
pub mod report;
pub mod sessions;
pub mod store;
pub mod tables;
pub mod task;
pub mod text;
pub mod vault;

pub use error::VaultError;
pub use messages::{get_session_messages, search, SearchResult};
pub use project::format_project_name;
pub use report::verify;
pub use sessions::{list_sessions, nth_recent_session_id, resolve_session_id, SessionSummary};
pub use store::{delete_session, insert_message, stats, upsert_session};
pub use task::{Column, Line, Next, Reply, Request, Statement, Step, Task, Value};
pub use vault::{open_vault, SyncOptions, Vault};
