pub mod base;
pub mod factory;
pub mod types;

pub use base::Provider;
pub use types::{
    FunctionCall, Message, MessageV, ProviderCapabilities, ProviderMetadata, Role, Tool, ToolCall,
    ToolV,
};
