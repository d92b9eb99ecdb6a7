//! Verified API contract tooling: the contract IR, registries, the Effect
//! TypeScript generator, usage indexing and build lint decisions.

pub mod api;
pub mod cli;
pub mod collector;
pub mod external;
pub mod gen;
pub mod ir;
pub mod lint;
pub mod ls;
pub mod naming;
pub mod order;
pub mod scan;
pub mod text;
pub mod web;
