//! Generates the SQL statements that describe, fill and query a table
//! for a model type, and plans how rows are split over bulk inserts.

pub mod bulk;
pub mod model;
pub mod schema;
pub mod statement;
pub mod text;
pub mod util;

pub use bulk::BulkQueryIterator;
pub use model::BaseModel;
