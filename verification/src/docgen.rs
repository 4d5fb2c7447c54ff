pub mod diataxis;
pub mod generator;
pub mod writer;
