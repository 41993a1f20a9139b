//! Tasks: the operators that make up plans.

pub mod operator;
