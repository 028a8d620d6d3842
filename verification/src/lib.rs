//! Refactoring code actions over a typed syntax tree: rewriting nested calls
//! as a pipeline, and inlining local bindings.

pub mod ast;
pub mod code_action;
pub mod diagnostic;
pub mod edit;
pub mod engine;
pub mod inline;
pub mod locate;
pub mod pipeline;
pub mod position;
pub mod render;
pub mod span;
pub mod text;
pub mod usage;
