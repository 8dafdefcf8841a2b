//! A small task list: a table of tasks kept newest first, and the request
//! logic that reads and changes it.

pub mod text;
pub mod models;
pub mod database;
pub mod handlers;
pub mod laws;
