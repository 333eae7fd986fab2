//! A small stack-based bytecode virtual machine with native support for
//! algebraic effect handlers, built on one-shot continuations realized as
//! suspendable execution contexts ("fibers").
//!
//! The interpreter is specified against a mathematical model: every runtime
//! type has a view into a pure spec datatype, and a spec-level small-step
//! function gives the exact semantics of every instruction.  The executable
//! interpreter is proved to follow that step function, and the laws module
//! proves the engine's dynamic-scoping and one-shot guarantees from it.

pub mod types;

pub mod model;

pub mod views;

pub mod machine;

pub mod laws;
