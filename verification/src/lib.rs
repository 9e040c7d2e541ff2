pub mod error;
pub mod instruction;
pub mod processor;
pub mod schema;
pub mod utils;
