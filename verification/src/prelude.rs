//! The names that most callers need.

pub use crate::order::OrderModeBuilder;
pub use crate::parser::{parse_nodes, Brackets, ParseMode};
pub use crate::render::{AlignmentBuilder, RenderMode, SymbolsBuilder};
pub use crate::tree::Node;
