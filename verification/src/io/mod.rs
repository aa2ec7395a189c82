pub mod pipeline;
pub mod stats;
pub mod reader;
pub mod query;
pub mod dump;
pub mod synthetic;
pub mod report;
