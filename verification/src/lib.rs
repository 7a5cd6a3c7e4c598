//! A backtracking, state-threading parser-combinator engine for a small
//! expression language, together with a meta-language that compiles a
//! textual description of a parser pipeline into descriptors and replays
//! them against real input.
//!
//! The whole engine is specified against the pure model in [`model`]:
//! each operation's contract says that its result is exactly what the
//! corresponding model function yields on the view of its input.
pub mod arena;
pub mod combi;
pub mod element;
pub mod els;
pub mod func;
pub mod funcs;
pub mod lang;
pub mod laws;
pub mod model;
pub mod num;
pub mod prims;
pub mod state;
mod text;

pub use element::{ParserEl, ParserElValue, ParserElement, ParserElementType};
pub use func::{ParserFunction, ParserFunctionParam, ParserFunctionType,
    ParserFunctionTypeAndParam};
pub use state::Parser;
