//! Front end of a small general-purpose language: a parser from tokens to a spanned syntax
//! tree, and a semantic analyzer that resolves names, enforces scoping rules and checks types
//! on that tree. Each is proved to follow a specification written as spec functions:
//! `grammar` for the parser, `analysis` for the analyzer.
//!
//! Also here: the type rules and names used by the two code generators (`c_types`, `csharp`).
pub mod token;
pub mod ast;
pub mod grammar;
pub mod parser;
pub mod types;
pub mod errors;
pub mod scope;
pub mod analysis;
pub mod analyzer;
pub mod c_types;
pub mod csharp;
