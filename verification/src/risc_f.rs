//! A reader for modules in WebAssembly text form: the lexer that cuts the
//! text into tokens, and the parser that builds the module's tree.

pub mod lexer;
pub mod parser;
