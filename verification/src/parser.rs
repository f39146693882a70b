pub mod delimiters;
pub mod log_level;
pub mod parser;
