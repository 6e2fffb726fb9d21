//! A small logical query planner: SQL statements are analysed and turned into
//! trees of logical plan nodes (scan, projection, selection, aggregation,
//! join) whose output schemas and textual renderings are computed here.

pub mod datatypes;
pub mod schema;
pub mod text;
pub mod error;
pub mod sql;
pub mod expressions;
pub mod expressions_display;
pub mod datasource;
pub mod dataframe;
pub mod catalog;
pub mod planner;
