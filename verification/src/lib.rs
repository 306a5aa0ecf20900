//! A step-by-step interpreter for an untyped combinatory / λ-calculus
//! language: terms built from variables, opaque symbols, application and
//! λ-abstraction, reduced one leftmost-outermost step at a time against an
//! environment of named, fixed-arity functions.

pub mod command;
pub mod config;
pub mod context;
pub mod engine;
pub mod evaluate;
pub mod expression;
pub mod function;
pub mod identifier;

pub use command::Command;
pub use context::Context;
pub use engine::Engine;
pub use evaluate::EvalSteps;
pub use expression::Expr;
pub use function::Func;
pub use identifier::Ident;
