pub mod executor;
pub mod parser;
pub mod plan;
pub mod yaml;
