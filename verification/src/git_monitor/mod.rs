//! Watching GitHub and GitLab repositories: which channel follows which repository, and what is
//! announced when one changes.

pub mod detect;
pub mod format;
pub mod github;
pub mod gitlab;
pub mod laws;
pub mod poll;
pub mod store;
pub mod text_laws;
