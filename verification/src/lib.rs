//! A small stack-based virtual machine and the parser for its
//! line-oriented assembly language.
pub mod text;
pub mod value;
pub mod instruction;
pub mod error;
pub mod parser;
pub mod vm;
pub mod laws;
pub mod operations;
pub mod keywords;
