//! A single-user password vault: client authentication, a session-scoped
//! account vault over an in-memory image of the credential tables, and a
//! password generator.

pub mod error;
pub mod generator;
pub mod menu;
pub mod model;
pub mod records;
pub mod store;
