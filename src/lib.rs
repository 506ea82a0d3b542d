//! Semantic analysis for a small imperative language: scope resolution, static type
//! checking and construction of a typed intermediate representation.
pub mod ast;
pub mod ir;
pub mod errors;
pub mod env;
pub mod rules;
pub mod wf;
pub mod pre_check;
pub mod laws;
pub mod analyzer;

pub use analyzer::SemanticAnalyzer;
