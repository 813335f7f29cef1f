//! The verified core of the Tungsten toolchain.

// Text utilities shared by the modules below.
pub mod text;
pub mod lexical;

// Type checking: intervals, refinement predicates, effect rows, types and unification.
pub mod interval;
pub mod relational;
pub mod effects;
pub mod types;
pub mod unify;

// The typed intermediate representation and its passes.
pub mod tir;
pub mod tir_verify;
pub mod const_fold;
pub mod llvm;
pub mod llvm_text;

// The Forge package tool.
pub mod manifest;
pub mod builder;
pub mod bindgen;
pub mod package;
pub mod resolver;

// Runtime: channels, fibers, arenas and I/O completions.
pub mod channel;
pub mod fiber;
pub mod arena;
pub mod iocp;

// The language server.
pub mod json;
pub mod lsp;

// The fuzzer.
pub mod rng;
pub mod generator;
pub mod negative;
pub mod oracle;
