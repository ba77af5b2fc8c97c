//! Schema-version compatibility planning: version tags, the grammar of a
//! compatibility declaration, the resolution of its migration graph, and the
//! migration chains that generated code follows.
#![allow(unused_imports)]

pub mod text;
pub mod tag;
pub mod error;
pub mod parse;
pub mod dag;
pub mod token;
pub mod syntax;
pub mod codegen;
