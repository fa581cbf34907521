pub mod emitter;
pub mod lexer;
pub mod opcodes;
pub mod parser;
