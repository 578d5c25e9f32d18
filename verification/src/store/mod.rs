//! The event store: schema, the rows the aggregator hands to the writer,
//! and the read-side queries.

pub mod query;
pub mod schema;
pub mod writer;

pub use query::{Query, QueryError, RatePoint, TopRow};
pub use writer::{Row, Writer};
