//! Management of named deployment targets ("remotes") for a script project
//! whose deployment metadata lives in a small JSON manifest: validated remote
//! names and ids, an ordered remote table kept inside the manifest, the
//! commands that edit it, and the swap-push-restore sequence of a push.
pub mod commands;
pub mod config;
pub mod error;
pub mod json;
pub mod push;
pub mod remote;
pub mod table;
