//! Discovery of a locally running game client and the typed session protocol
//! layered on its loopback HTTPS service.
//!
//! The library locates the client process, extracts its install directory from
//! the process arguments, parses the colon-delimited credential file the
//! client writes on startup, and builds the authenticated session values
//! (base URL and Basic-Auth header) used to talk to the local service.

pub mod client;
pub mod context;
pub mod installdir;
pub mod lcc;
pub mod strutil;
pub mod ugg;

