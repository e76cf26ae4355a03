//! A small declarative element tree: typed elements that carry a property
//! payload and child elements, and a resolver that turns a tree of primitive
//! and composite elements into markup text.
pub mod describe;
pub mod element;
pub mod laws;
pub mod model;
pub mod tag;
