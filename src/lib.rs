//! Builds calculator document archives: a deflated, keystream-protected
//! problem payload packed into a vendor variant of the zip container.

pub mod compression;
pub mod converter;
pub mod des;
pub mod math_render;
pub mod tns_writer;
pub mod xml;
