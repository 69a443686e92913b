pub mod lexer;
pub mod loxr_;
pub mod model;
pub mod token;
