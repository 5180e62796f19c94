//! Rendering of mathematical expression trees as presentation markup.

pub mod attribute;
pub mod text;
pub mod ast;
pub mod table;
pub mod laws;
pub mod alike;
