//! A path-addressed store of binary objects.
//!
//! A caller names a file by its full path. The library checks the request,
//! builds the record that stands for the file, turns it into the bytes that a
//! key-value engine keeps under that path, and reads such bytes back. The
//! engine (a database on disk) is driven by the caller: each operation is
//! split into the command that the library hands out and the function that
//! takes the engine's answer.

pub mod codec;
pub mod engine;
pub mod file_path;
pub mod file_service;
pub mod laws;
pub mod object_store;
pub mod record;
mod stamp;
pub mod wire;
