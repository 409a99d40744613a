//! Extraction of type-checked host programs into a small, pure intermediate
//! representation for a formal verifier, and the canonical binary encoding of
//! that representation.
#![allow(non_snake_case)]

pub mod ast;
pub mod diag;
pub mod encode;
pub mod expr;
pub mod extraction;
pub mod factory;
pub mod host;
pub mod krate;
pub mod laws;
pub mod literal;
pub mod model;
pub mod path;
pub mod rules;
pub mod ser;
pub mod symbols;
pub mod ty;
pub mod validate;
pub mod validity;
