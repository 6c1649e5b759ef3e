//! A library for a linear chemical line notation: a parser that turns
//! notation text into a molecular graph, and an equality test on molecular
//! graphs by labeled graph isomorphism.
//!
//! The grammar lives in [`parse`], the tree it produces in [`ast`], the
//! pass from tree to graph in [`builder`], the graph itself in
//! [`molecule`], and the element table in [`element`].

pub mod ast;
pub mod builder;
pub mod element;
pub mod molecule;
pub mod parse;
