pub mod expr;
pub mod generator;
pub mod nodes;
pub mod number;
