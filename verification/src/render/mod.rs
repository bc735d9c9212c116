//! Laying out source code.
pub mod highlight;
