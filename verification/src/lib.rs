//! A minimal server-rendered to-do list: entries live in a file-backed
//! SQLite table reached through a connection pool, three handlers list,
//! add and delete them, and the listing is rendered as an HTML page.
//! Request-body parsing, the rendering, and every handler decision are
//! verified; the engine's own work stays behind a few trusted wrappers.

pub mod entry;
pub mod form;
pub mod render;
pub mod store;
pub mod handler;
