//! A toolchain for a tiny expression-oriented language: a compiler that
//! lowers source text to a byte-addressable instruction stream, and a stack
//! virtual machine that executes that stream.

pub mod ast;
pub mod codec;
pub mod context;
pub mod interpreter;
pub mod lowering;
pub mod nodes;
pub mod parser;
pub mod pipeline;
pub mod scan;
pub mod text;
pub mod ty;
pub mod type_checker;
pub mod value;
