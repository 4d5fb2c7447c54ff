pub use crate::providers::types::Message;
