pub mod dto;
pub mod repositories;
pub mod use_cases;
pub mod utils;
