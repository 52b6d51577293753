//! An interpreter for the eight-instruction tape language, with its behaviour stated and proved.

pub mod brackets;
pub mod error;
pub mod interpreter;
pub mod machine;

pub use error::BrainfuckError;
pub use interpreter::BrainfuckInterpreter;
pub use machine::Action;
