pub mod error;
pub mod literal;
pub mod state;
pub mod sink;
pub mod codegen;
pub mod laws;
pub mod machine;
