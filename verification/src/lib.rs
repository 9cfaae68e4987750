//! A small food-catalogue service core: one table of records (id, name,
//! price), a lenient JSON request parser, a JSON renderer for responses,
//! an in-memory store with store-assigned increasing ids, and the mapping
//! from storage outcomes to HTTP status codes and bodies.

pub mod chars;
pub mod handlers;
pub mod model;
pub mod parse;
pub mod store;
pub mod render;
pub mod text;
