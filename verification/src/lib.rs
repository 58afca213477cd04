//! Front end of an interactive evaluator for a Smalltalk-like notation:
//! a tokenizer that classifies source text into lexical units, and a
//! minimal runtime that executes left-to-right binary-message arithmetic
//! over two numeric kinds (whole numbers and floating-point numbers),
//! dispatched through a per-value, name-keyed table of bound operations.

pub mod float;
pub mod laws;
pub mod lexer;
pub mod integer;
pub mod numbers;
pub mod object;
pub mod repl;
