//! The grammar rules: mutually recursive procedures that drive the cursor,
//! each responsible for one syntactic category and its error recovery.
//!
//! Every rule leaves the cursor exactly after the construct it consumed and
//! appends exactly one span per consumed token, in source order. No rule
//! ever raises an error: a malformed token is captured in place as an
//! error-tagged span and parsing continues.

pub mod block;
pub mod expr;
pub mod item;
pub mod stmt;

pub use block::parse_block;
pub use expr::parse_expr;
pub use item::parse_item;
pub use stmt::parse_stmt;
