//! A transpiler from LaTeX-flavoured math notation to Typst markup.
//!
//! The core is a forward-only character scanner ([`scanner::Scanner`]) and a
//! dispatch over every recognised macro name, with recursive handling of
//! nested arguments, environments and a text-mode sub-dialect.

pub mod chars;
pub mod laws;
pub mod md;
pub mod scanner;
pub mod table;
pub mod translate;
pub mod typ;
