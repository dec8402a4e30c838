//! Core logic of a small newsletter subscription service: configuration
//! and connection-string handling, URL-encoded form parsing, route
//! dispatch, and isolated per-run database provisioning.

pub mod configuration;
pub mod form;
pub mod provision;
pub mod routes;
pub mod startup;
pub mod text;
