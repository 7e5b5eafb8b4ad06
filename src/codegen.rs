pub mod bytecode;
pub mod expression;
pub mod program;
pub mod statement;
