pub mod grammar;
pub mod inter;
pub mod rule;
pub mod support;
