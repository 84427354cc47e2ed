pub mod ast;
pub mod codegen;
pub mod environment;
pub mod ir;
pub mod types;
