//! Talking to GitHub: hosts and credentials, the GraphQL documents, the wire
//! types and the decisions around requests.

pub mod auth;
pub mod client;
pub mod fetch;
pub mod model;
pub mod query;
