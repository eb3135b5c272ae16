//! A local-disk write-ahead log: the segment file format, the writer and
//! reader state machines behind each segment, and the bookkeeping of closed
//! segments.

pub mod closed;
pub mod codec;
pub mod error;
pub mod segment_id;
pub mod writer;
pub mod reader;
pub mod catalog;
pub mod partition_template;
pub mod proto;
