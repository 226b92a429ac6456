pub mod listener;
pub mod reader;
pub mod writer;
