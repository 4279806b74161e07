//! Zyre: a small language front end (lexer, parser, type checker,
//! formatter) with Zig and TypeScript code generators.
pub mod strs;
pub mod lexer;
pub mod parser;
pub mod grammar;
pub mod symtab;
pub mod typechecker;
pub mod typing;
pub mod codegen;
pub mod fmt;
pub mod colors;
pub mod commands;
pub mod cli;
