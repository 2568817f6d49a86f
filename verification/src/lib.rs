//! Core of a mutation-testing engine: reachability of definitions from tests,
//! collection of mutations over a syntax tree, conflict analysis between
//! mutations and batching of compatible mutations into mutants.

pub mod config;
pub mod expansion;
pub mod fx;
pub mod harness;
pub mod hygiene;
pub mod metadata;
pub mod unsafety;
pub mod reachability;
pub mod syntax;
pub mod text;
pub mod subst;
pub mod mutation;
pub mod conflicts;
pub mod random;
pub mod assoc;
pub mod ast_lowering;
pub mod batching;
pub mod collector;
pub mod op_swap;
pub mod order;
pub mod relational_op_invert;
