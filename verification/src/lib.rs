//! The Ponos language: from source text through tokens and syntax tree to
//! bytecode, and the stack machine that runs it. Floating-point arithmetic,
//! files, processes and the network are left to whoever drives the library.

pub mod number;
pub mod opcode;
pub mod span;
pub mod value;
pub mod ast;
pub mod heap;
pub mod model;
pub mod text;
pub mod vm;
pub mod ops;
pub mod symbol_table;
pub mod codegen;
pub mod generator;
pub mod native;
pub mod stdlib;
pub mod module;
pub mod name_resolver;
pub mod laws;
pub mod shape;
pub mod parse_error;
pub mod loader;
pub mod builtin_methods;
pub mod json;
pub mod preprocess;
pub mod display;
pub mod natives;
pub mod response;
pub mod token;
pub mod lexer;
pub mod syntax;
pub mod grammar;
pub mod places;
pub mod parser;
pub mod resolver;
pub mod syntax_error;
