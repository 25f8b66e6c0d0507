//! The core of a desktop data explorer: it indexes a directory tree into query
//! files and data files, and it turns the batches that a query produced into a
//! table of display strings.

pub mod batch;
pub mod classify;
pub mod error;
pub mod indexer;
pub mod markup;
pub mod render;
pub mod table;
pub mod tree;
