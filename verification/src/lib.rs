//! A small todo service core: an in-memory model of the backing `todos`
//! table, the JSON wire format, and the request handling rules, each with a
//! verified contract. The HTTP server and the database driver live outside
//! the library and hand it plain values.

pub mod body;
pub mod ext;
pub mod json;
pub mod num;
pub mod service;
pub mod store;
pub mod todo;
