pub mod entities;
pub mod errors;
pub mod utils;
