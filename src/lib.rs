//! Request interception core of an offline-capable application shell:
//! the per-request decision pipeline, the versioned cache model and the
//! install / activate lifecycle rules.

pub mod assoc;
pub mod message;
pub mod fetch;
pub mod counter;
pub mod store;
pub mod route;
pub mod shell;
