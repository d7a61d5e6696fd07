//! Contact graph and group membership rules for a private messenger, with the
//! oblivious contact queries that run over an encrypted mirror of the graph.
pub mod error;
pub mod keys;
pub mod text;
pub mod chat;
pub mod contacts;
pub mod profile;
pub mod group;
pub mod group_key;
pub mod circuit;
