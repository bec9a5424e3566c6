//! A minimal user-record service: a route classifier for a small fixed set of
//! HTTP paths, and an in-memory store of user records with slot-reusing
//! identifier allocation. The transport layer (listening, parsing raw HTTP)
//! lives outside this crate; it hands in a parsed method and path and takes
//! back a status and body.

pub mod laws;
pub mod record;
pub mod response;
pub mod route;
pub mod service;
pub mod store;
pub mod text;
