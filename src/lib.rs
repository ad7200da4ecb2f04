mod bytes;
pub mod error;
pub mod instruction;
pub mod laws;
pub mod processor;
pub mod state;
