//! Typed HTTP API client generation from an OpenAPI document model.

pub mod codegen;
pub mod diag;
pub mod laws;
pub mod model;
pub mod ordmap;
pub mod parse;
pub mod strings;
