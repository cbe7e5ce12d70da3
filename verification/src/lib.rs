//! A batch compiler for a small imperative language written in toki pona
//! particles. Source text is lexed into words, adjacent words are folded into
//! phrase tokens, the tokens are parsed into a syntax tree, and the tree is
//! turned into x86-64 assembly in FASM syntax.

pub mod abstracter;
pub mod assembly;
pub mod ast;
pub mod driver;
pub mod emission;
pub mod error;
pub mod generator;
pub mod grammar;
pub mod invariants;
pub mod lexer;
pub mod parser;
pub mod precedence;
pub mod scope;
pub mod table;
pub mod text;
pub mod token;
pub mod typing;
pub mod word;
