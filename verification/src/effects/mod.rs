//! Effects that obscure what an output showed when it was locked.

pub mod blur;

pub use blur::Blur;
