//! What the operations of the library are for, stated over their inputs and results.

pub mod held;
pub mod read;
pub mod sent;
pub mod shown;
pub mod words;
