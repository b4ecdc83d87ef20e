//! Execution core of a small dynamically typed scripting language: the value
//! representation, the evaluation stack with its call frames, reference
//! resolution, and the catalog of built-in operations.

pub mod ast;
pub mod bridge;
pub mod dispatch;
pub mod fields;
pub mod intrinsics;
pub mod laws;
pub mod number;
pub mod ops;
pub mod render;
pub mod runtime;
pub mod text;
pub mod variable;
