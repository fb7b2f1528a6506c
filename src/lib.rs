//! A small interpreted register/stack machine: a line tokenizer, a pass that
//! groups tokenized lines into functions, and a tree-walking interpreter.
pub mod console;
pub mod cpu;
pub mod diagnostics;
pub mod interp;
pub mod json;
pub mod laws;
pub mod lexer;
pub mod loader;
pub mod text;
pub mod token;
