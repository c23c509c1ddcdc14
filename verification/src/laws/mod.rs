//! What holds of the client as a whole.

pub mod checks;
pub mod encoding;
pub mod found_logs;
pub mod import;
pub mod logs;
pub mod lookups;
pub mod reads;
pub mod sealing;
pub mod startup;
pub mod values;
