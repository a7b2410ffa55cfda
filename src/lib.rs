//! A local reverse proxy's decision logic and the helpers around it.
//!
//! - `proxy`: which inbound requests are served, which headers travel
//!   upstream and back, and the body sent upstream in bridge mode.
//! - `request`: Responses-shaped request bodies into Chat Completions ones.
//! - `stream`: Chat Completions event-stream lines into Responses events.
//! - `json`: JSON documents as plain values, read and written by `serde_json`.
//! - `agents`: custom agents defined by Markdown files with frontmatter.
//! - `shell`, `paths`, `worktree`: the user's shell, Unix paths, and git
//!   worktrees kept per conversation.
//! - `text`: character-level string helpers.
pub mod agents;
pub mod json;
pub mod paths;
pub mod proxy;
pub mod request;
pub mod shell;
pub mod stream;
pub mod text;
pub mod worktree;
