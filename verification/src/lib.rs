//! A source-code formatter core for a small functional language: a document
//! algebra with a width-driven layout engine, and a renderer mapping each
//! syntax-tree node to a document.

pub mod ast;
pub mod doc;
pub mod laws;
pub mod layout;
pub mod render;
