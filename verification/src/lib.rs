//! A pluggable remote object-store backend provider for an HDFS-like
//! backend: it maps a generic string-keyed configuration bag into
//! backend-native options, normalizes URIs into canonical absolute paths,
//! builds a live backend handle, and disciplines large uploads through a
//! chunked, sequential writer with exact size accounting.

pub mod error;
pub mod operator;
pub mod options;
pub mod path;
pub mod provider;
pub mod store;
pub mod uri;
pub mod writer;
