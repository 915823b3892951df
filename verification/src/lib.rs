//! A verified in-memory model of a particle catalogue: a single table of
//! particle records with list, get-by-id, create, update and delete
//! operations, together with the request-level dispatch that maps each
//! operation's outcome to an HTTP-style response.

pub mod api;
mod clock;
pub mod laws;
pub mod models;
pub mod store;
