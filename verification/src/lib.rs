pub mod ast;
pub mod book;
pub mod diagnostics;
pub mod display_table;
pub mod lexer;
pub mod nir;
pub mod parser;
pub mod resolve;
pub mod span;
pub mod text;
