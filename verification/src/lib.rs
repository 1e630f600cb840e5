//! The verified core of `inline_java`, which embeds Java in Rust: a snippet's
//! `static T run(..)` method is wrapped in a generated class, compiled with
//! `javac`, run with `java`, and what it returns is decoded into a Rust value
//! or, for compile-time evaluation, turned into a Rust literal.
//!
//! - [`tokens`], [`parse`]: the macro input and what is read from it;
//! - [`types`], [`codegen`], [`inject`], [`program`]: the Java types, the
//!   generated Java code, the Rust variables a snippet uses, and the whole
//!   program for a snippet;
//! - [`value`], [`wire`], [`codec`], [`literal`]: the values that cross the
//!   boundary, their byte format, and the compile-time literals;
//! - [`jvm`]: what the Java calls in the generated code do, and the laws
//!   that the generated code carries each value across unchanged;
//! - [`args`], [`runner`]: option strings, and the steps of a run;
//! - [`error`], [`text`], [`std_text`], [`external`]: errors, text helpers,
//!   and the calls into `std`, `litrs` and `shellexpand`.

pub mod std_text;
pub mod text;
pub mod args;
pub mod types;
pub mod value;
pub mod wire;
pub mod error;
pub mod codec;
pub mod literal;
pub mod external;
pub mod tokens;
pub mod parse;
pub mod codegen;
pub mod inject;
pub mod jvm;
pub mod program;
pub mod runner;
