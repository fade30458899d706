//! Boundary layer for a columnar-database client: a typed wire model,
//! a JSON <-> record-batch marshaller, a uniform result envelope, and the
//! per-operation decision logic that a thin foreign-function shell drives.
pub mod batch;
pub mod codec;
pub mod connection;
pub mod data;
pub mod envelope;
pub mod index;
pub mod ipc;
pub mod json;
pub mod metadata;
pub mod query;
pub mod schema;
pub mod text;
pub mod wire;
