//! The Effect TypeScript generator: schemas, errors, endpoint accessors,
//! the service layer, package files and the symbol graph.

pub mod endpoints;
pub mod errors;
pub mod layer;
pub mod locations;
pub mod package;
pub mod schemas;
pub mod symbols;
pub mod text;
pub mod writer;
