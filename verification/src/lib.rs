//! Decision core of the Ram file server.
//!
//! The library holds what the server decides: how names, errors, capabilities and
//! filesystem transactions behave. It performs no input or output of its own. Where a
//! decision alternates with system calls, the library offers a state machine whose
//! actions the caller performs and whose events the caller reports.

pub mod archive;
pub mod authentication;
pub mod browse;
pub mod capabilities;
pub mod content;
pub mod dav_routes;
pub mod display;
pub mod error;
pub mod fault;
pub mod filesystem;
pub mod path;
pub mod response;
pub mod sorting;
pub mod text;
pub mod time;
pub mod zip_name;
