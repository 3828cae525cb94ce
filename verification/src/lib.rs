//! The core of a small desktop CRM: its configuration and credentials
//! file, its customer and contact-history records, the SQL it issues,
//! and the state behind its screens: the search filter, the setup
//! wizard, and the in-memory mirrors the views read.
//!
//! Everything here is plain computation on plain values; the surrounding
//! application performs the file and network work and hands the results
//! back as values of these types.
pub mod app_state;
pub mod config;
pub mod date;
pub mod json;
pub mod records;
pub mod search;
pub mod sql;
pub mod text;
pub mod wizard;
