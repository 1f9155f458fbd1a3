//! An incremental read buffer for byte streams that arrive in chunks.
//!
//! A [`ReadBuffer`] stages one read attempt at a time in a fixed-size chunk and
//! appends what the attempt obtained to a growing store. The store is exposed
//! through a [`Cursor`], which tracks how much of it the consumer has taken.
//! The module [`pulls`] states what any run of pulls leaves in the store.

pub mod buffer;
pub mod cursor;
pub mod pulls;

pub use buffer::ReadBuffer;
pub use cursor::{Cursor, InsufficientData};
