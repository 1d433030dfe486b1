//! Keeps routes and the certificates that serve their hostnames in agreement.
pub mod annotations;
pub mod certificate;
pub mod codec;
pub mod config;
pub mod error;
pub mod identity;
pub mod route;
pub mod text;
pub mod tls;
pub mod reconcile;
