//! Keeps a markdown checklist and the issues of a GitHub repository in
//! step: what to create and close remotely for the local items, what to
//! tick and add locally for the remote issues, and the polling of the
//! device authorization grant that yields the token for both.

pub mod auth;
pub mod cli;
pub mod config;
pub mod decimal;
pub mod github;
pub mod json;
pub mod markdown_laws;
pub mod markdown_parser;
pub mod remote;
pub mod text;
pub mod todo;
pub mod whoami;
