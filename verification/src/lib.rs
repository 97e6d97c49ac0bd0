//! A cost model for queries.
//!
//! A rule text says what each top-level field of a query costs, by patterns
//! on the field's arguments, guards and cost expressions. [`CostModel::compile`]
//! turns such a text into a model; [`CostModel::cost`] gives the cost of a
//! query under the model as an integer of any size.

pub mod bindings;
pub mod bytes;
pub mod expr;
pub mod grammar;
pub mod index;
pub mod integer;
pub mod laws;
pub mod literal;
pub mod model;
pub mod parser;
pub mod query;
pub mod resolve;
pub mod rule;
pub mod token;

pub use crate::expr::EvalError;
pub use crate::model::{CostError, CostModel};
pub use crate::parser::{ParseError, ParseFault};
pub use crate::resolve::ResolveError;
