//! A typo-tolerant route resolver and the decision core of a minimal
//! listener that gives every connection a task of its own.
//!
//! The library does no I/O. A driver binds, accepts, reads, runs handlers
//! and writes; after each of these it reports what happened and is told
//! what to do next.
//!
//! - [`matcher`]: the edit distance between two strings.
//! - [`path`]: route paths and their normal form.
//! - [`table`]: the ordered table of known paths.
//! - [`resolver`]: exact match, nearest known path, or nothing.
//! - [`request`]: the request line, and the path it asks for.
//! - [`response`]: responses and their wire format.
//! - [`pages`]: the pages sent when no handler answers.
//! - [`connection`]: the life of one connection.
//! - [`isolation`]: why connections do not disturb each other.
//! - [`acceptor`]: the listener's loop.
//! - [`config`]: the address to bind.
//! - [`failure`]: what can go wrong, and how far it reaches.

pub mod acceptor;
pub mod config;
pub mod connection;
pub mod failure;
pub mod isolation;
pub mod matcher;
pub mod pages;
pub mod path;
pub mod request;
pub mod resolver;
pub mod response;
pub mod table;
