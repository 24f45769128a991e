//! Orchestration and materialization of a decision-support benchmark data
//! generator's output: the table catalog, request validation, discovery of the
//! generator's output files, static column schemas, and the conversion of
//! delimited rows into columnar record batches.
pub mod discovery;
pub mod error;
pub mod materialize;
pub mod request;
pub mod schema;
pub mod session;
pub mod table;
