//! A small compiler for the BRS scripting language: a tokenizer, a parser
//! producing an abstract syntax tree, and an assembly generator for x86_64 and
//! AArch64 targets.
pub mod compiler;
pub mod utility;
