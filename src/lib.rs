//! Token-authenticated per-user key-value storage with a small user directory.
//!
//! `models` holds the records and the two stores (users and key-value entries)
//! together with the credential hasher; `routes` holds the request handlers that
//! resolve a caller from its bearer token and apply the role and ownership rules.
pub mod models;
pub mod routes;
