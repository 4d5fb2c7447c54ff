pub mod context;
pub mod driver;
pub mod executor;
pub mod message;
pub mod state;
