pub mod diagnostic;
pub mod expr;
pub mod scanner;
pub mod token;
