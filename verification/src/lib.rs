//! Unity Catalog metadata library: error codes, privilege and securable
//! types, wire shapes, and the log-structured metadata store with its
//! repositories.

pub mod text;
pub mod errors;
pub mod types;
pub mod pagination;
pub mod models;
pub mod ids;
pub mod store;
pub mod repos;
pub mod managed_storage;
pub mod openapi;
