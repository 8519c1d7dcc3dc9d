//! Keeps a collection of notes consistent between a local store and the IMAP
//! folders that back a notes application.
//!
//! The library holds the decisions and leaves the talking to the caller:
//! `headers`, `model` and `note` describe a note on either side, `groups`
//! and `analysis` compare the two sides, and `discovery` and `publish` say
//! which commands a mail session must perform, one reply at a time.

pub mod analysis;
pub mod discovery;
pub mod groups;
pub mod headers;
pub mod model;
pub mod note;
pub mod profile;
pub mod publish;
pub mod session;
pub mod text;
pub mod util;
