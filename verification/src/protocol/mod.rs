pub mod types;
pub mod word;
pub mod dictionary;
