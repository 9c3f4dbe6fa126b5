//! Terminal UI state and logic: the application model, its shell, its
//! configuration and its cosmetic effects. Drawing lives in the
//! application.
pub mod glitch;
pub mod config;
pub mod app;
pub mod pulse;
