//! Astrea: a file-based router for Axum.
//!
//! This crate holds the logic of the framework: route naming and scanning,
//! middleware scoping, the generation plan of the route macros, handler
//! analysis, the OpenAPI registry and document, and the request, response,
//! error and Server-Sent Event types handlers use. Its functions carry
//! contracts proved by Verus; the calls into std and outside crates that the
//! logic needs sit behind small trusted wrappers, each documented with what
//! its contract assumes.

pub mod text;
pub mod order;
pub mod utils;
pub mod parser;
pub mod scanner;
pub mod json;
pub mod ast;
pub mod analysis;
pub mod openapi;
pub mod openapi_doc;
pub mod doc;
pub mod meta;
pub mod codegen;
pub mod route;
pub mod sse;
pub mod error;
pub mod response;
pub mod event;
pub mod extract;
pub mod middleware;
pub mod layers;
