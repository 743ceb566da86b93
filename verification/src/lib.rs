//! A verified tree-walking interpreter for a small, dynamically typed,
//! C-syntax scripting language.
//!
//! The pipeline has three stages: a lexer that turns a source string into a
//! token stream, a Pratt parser that turns the token stream into an abstract
//! syntax tree, and an evaluator that walks the tree against a lexically
//! scoped environment with first-class closures.
//!
//! Each stage is specified by a mathematical mirror: a spec-level lexer,
//! parser and evaluator over ghost models of tokens, AST nodes and runtime
//! values. The executable functions are proved to return exactly what the
//! mirrors say.

pub mod enviornment;
pub mod expression;
pub mod interpreter;
pub mod lexer;
pub mod identifier;
pub mod object;
pub mod parser;
pub mod program;
pub mod statement;
pub mod stdchai;
pub mod token;
pub mod tokeninfo;
