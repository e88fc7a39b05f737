//! The decisions of one bounded, single-partition scan of a remote table:
//! which schema the scan delivers, how the filters it was given are
//! rewritten into the column names of the declared schema, and whether a
//! row limit is sent to the remote source or left to the consumer.
//!
//! Nothing here talks to a remote source. A scan hands out the query that
//! is to be run; who runs it hands the batches on.

pub mod error;
pub mod node;
pub mod predicate;
pub mod pushdown;
pub mod rewrite;
pub mod schema;
pub mod stream;
pub mod text;
pub mod transform;

pub use error::ExecError;
pub use node::RemoteTableExec;
pub use predicate::{Column, Literal, LiteralValue, Operator, Predicate, UnaryOperator};
pub use pushdown::{allow_limit_pushdown, forwarded_limit, Dialect};
pub use rewrite::{rewrite_column, rewrite_filters_column, rewrite_predicate};
pub use schema::{Field, Schema};
pub use text::describe;
pub use stream::{assemble_stream, assemble_stream_from, prepare_filters, RemoteQuery, StreamPlan};
pub use transform::{ask_transform, reconcile_schema, transformed_schema, Transform};
