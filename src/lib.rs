//! Swap core of a two-asset constant-product market maker: the curve that
//! prices a trade, and the orchestration that validates it and moves the two
//! token legs all-or-nothing.
pub mod curve;
pub mod error;
pub mod swap;
