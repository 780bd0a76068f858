//! Request-handling core of a small blogging backend: validation rules,
//! an authentication gate, ordered route tables for authors, posts and
//! users, and the translation of every rejection into an HTTP status.

pub mod rejection;
pub mod validation;
pub mod outside;
pub mod request;
pub mod routing;
pub mod handlers;
