pub mod scanner;
