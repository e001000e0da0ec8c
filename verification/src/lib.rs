//! Rewrites ES6 modules (`import` / `export` declarations) into CommonJS
//! modules, driven by the token stream of the `esparse` lexer.
//!
//! - [`token`]: the token stream over a source text, lexed by `esparse`;
//! - [`strlit`]: the values of string literals, computed by `esparse`;
//! - [`es6`]: the declarations and the resulting module;
//! - [`parse`]: parsing of declarations and skipping of expressions;
//! - [`cjs`]: the rewriting of a whole module;
//! - [`laws`]: properties of the rewriting;
//! - [`text`]: UTF-8 facts and text helpers.

pub mod text;
pub mod token;
pub mod strlit;
pub mod es6;
pub mod parse;
pub mod cjs;
pub mod laws;
