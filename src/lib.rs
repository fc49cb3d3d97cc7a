//! A small object database: typed records stored in partitioned tables,
//! grouped into databases, and driven by named endpoints.

pub mod cell;
pub mod text;
pub mod json;
pub mod conditional;
pub mod record;
pub mod storage;
pub mod part;
pub mod table;
pub mod query;
pub mod runnable;
pub mod endpoint;
pub mod database;
pub mod parse;
pub mod server;
pub mod laws;
pub mod request;
