pub mod error;
pub mod kufr;
pub mod lexer_iter;
pub mod spec;
pub mod string_or_char;
pub mod token;
