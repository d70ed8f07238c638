//! Per-block correlation of receipts with the transactions that caused them,
//! the store operations each block asks for, and the checkpoint that lets an
//! indexer resume where it stopped.
pub mod block;
pub mod checkpoint;
pub mod config;
pub mod correlate;
pub mod pairs;
pub mod publish;
