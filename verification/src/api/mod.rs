//! The requests of the service, one module for each kind.
pub mod builds;
pub mod cleanup;
pub mod download;
pub mod health;
pub mod upload;
