//! The filesystem capability layer: how requests are bound to filesystem objects.
//!
//! Names are resolved beneath a pinned root, and every change of the namespace first checks
//! that the entry is still the one that the request was decided on.

pub mod candidate;
pub mod cleanup;
pub mod directory;
pub mod entry;
pub mod failure;
pub mod guarded;
pub mod locks;
pub mod publish;
pub mod removal;
pub mod rename;
pub mod resolve;
pub mod stale;
pub mod visited;
pub mod walk;
