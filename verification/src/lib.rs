//! Pipeline simulator for instruction traces: reads a trace into raw
//! instructions, derives their register and memory dependencies, and counts
//! the cycles an in-order fetch/decode/execute window needs to run them.
pub mod text;
pub mod models;
pub mod simulate;
pub mod translate;
pub mod parse;
pub mod experiment;
pub mod schedule;
pub mod table;
