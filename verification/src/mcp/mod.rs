pub mod server;
pub mod tools;

pub use tools::{ToolCallResult, ToolDescriptor};
