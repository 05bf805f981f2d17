//! Functions that may change their input in place and return a result.
pub mod mutating_function_once;
pub mod stateful_mutating_function;
