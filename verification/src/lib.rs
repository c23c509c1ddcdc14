//! The decisions of a blockchain database client.
//!
//! The crate performs no input or output. Whatever has to be read of the
//! chain is put as a question, whatever has to be done is put as an action,
//! and the caller hands back what came of it.

pub mod answers;
pub mod blocks;
pub mod client;
pub mod import;
pub mod laws;
pub mod logs;
pub mod reads;
pub mod report;
pub mod rlp;
pub mod sealing;
pub mod startup;
pub mod types;
