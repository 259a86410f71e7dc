//! Text trees: parse bracketed expressions into trees, reorder them and draw them.

pub mod display;
pub mod drawing;
pub mod error;
pub mod expression;
pub mod order;
pub mod parser;
pub mod prelude;
pub mod render;
pub mod text;
pub mod tree;

pub use order::{OrderMode, OrderModeBuilder, Sorter, UnsupportedSorter};
pub use tree::Node;
