//! Functional-programming abstractions: predicates, suppliers, consumers,
//! mappers, mutators and mutating functions, each in boxed, reference-counted
//! and thread-safe flavours, with their composition laws.
pub mod shared;
pub mod predicate;
pub mod transformer;
pub mod readonly_supplier;
pub mod readonly_consumer;
pub mod readonly_bi_consumer;
pub mod mapper;
pub mod stateful_function;
pub mod supplier;
pub mod stateful_supplier;
pub mod mutator;
pub mod mapper_once;
pub mod supplier_once;
pub mod mutator_once;
pub mod functions;
