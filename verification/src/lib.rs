//! Build-time controller transformation library.
//!
//! Models annotated HTTP handler definitions ("routes") grouped into
//! controllers, and computes from them a router wiring table, an API
//! documentation model, and a hyperlink-wrapping rewrite of handlers that
//! declare link relations.

pub mod attr;
pub mod controller;
pub mod docs;
pub mod openapi;
pub mod parse;
pub mod registry;
pub mod route;
pub mod shape;
pub mod text;
pub mod transform;
