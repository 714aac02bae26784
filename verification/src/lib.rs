//! Exact rational numbers in lowest terms, checked arithmetic on them, and a
//! canonical store that hands out one stable handle per distinct value.

pub mod rational;
pub mod checked;
pub mod special;
pub mod ops;
pub mod sort;
pub mod primitives;
pub mod laws;
