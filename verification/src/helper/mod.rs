pub mod msg;
pub mod search;
pub mod text;
pub mod types;

pub use msg::MessageFormatter;
pub use types::{CompileError, ErrorType, Span};
