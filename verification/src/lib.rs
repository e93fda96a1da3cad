//! Planning of a typed HTTP client from an OpenAPI 3 document: schema
//! typing, model layout and client operation layout, with the text helpers
//! they need.

pub mod text;
pub mod types;
pub mod schema;
pub mod document;
pub mod models;
pub mod client;
pub mod laws;
pub mod ordering;
pub mod behaviour;
