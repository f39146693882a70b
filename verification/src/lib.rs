pub mod analyzer;
pub mod log;
pub mod parser;
pub mod strmap;
pub mod text;
