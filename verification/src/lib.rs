pub mod agent;
pub mod cli;
pub mod config;
pub mod docgen;
pub mod error;
pub mod json;
pub mod providers;
pub mod repository;
pub mod text;
pub mod tools;
pub mod workflow;
pub mod xzepr;
