//! Serving core of a functions-as-a-service runtime: an execution
//! sandbox harness, a bounded concurrency pool with usage accounting,
//! and an invocation coordinator that binds deployed functions to
//! requests. Everything here is verified; the embedding program
//! supplies the HTTP transport, persistence, and the engine call.

pub mod api;
pub mod clock;
pub mod function;
pub mod ident;
pub mod isolate;
pub mod json;
pub mod pool;
pub mod route;
pub mod runtime;
pub mod site;
pub mod store;
pub mod strmap;
pub mod strutil;
