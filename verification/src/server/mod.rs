//! Server-side rules: connection authorization, configuration and the
//! manager stack of a session.
pub mod app;
pub mod auth;
pub mod config;
