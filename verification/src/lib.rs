//! Builds word-processing documents from rich-text deltas and images.
//!
//! A delta is a JSON list of insert operations with optional bold and italic
//! flags. Each delta, and each image, becomes one paragraph of a
//! [`document::Document`]; the finished document is packed into the bytes of
//! a `.docx` file.

pub mod builder;
pub mod delta;
pub mod document;
pub mod json;
pub mod numerals;
pub mod package;

pub use crate::builder::AndroidDocBuilder;
