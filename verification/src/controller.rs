//! The controller's side: the records it keeps, the messages it passes
//! between its parts, and the answers of its HTTP routes.

pub mod api;
pub mod channel;
pub mod database;
pub mod logger;
pub mod routes;
pub mod types;
