//! Static analysis of React-style component modules: which functions are
//! components, what each of them observes, and what a module imports.

pub mod analyzer;
pub mod collector;
pub mod json;
pub mod laws;
pub mod location;
pub mod plan;
pub mod runtime_ast;
pub mod source;
pub mod syntax;
pub mod text;
pub mod transform;
