pub mod chunk;
pub mod compiler;
pub mod scanner;
pub mod values;
pub mod vm;
