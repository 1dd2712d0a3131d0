//! The engine of an RPN calculator: exact integer and binary float
//! arithmetic on a value stack, undo history, input parsing and unit
//! conversion, with contracts checked by Verus.
pub mod action;
pub mod angle;
pub mod base;
pub mod bigint;
pub mod commands;
pub mod config;
pub mod constants;
pub mod error;
pub mod float;
pub mod mode;
pub mod ops;
pub mod parser;
pub mod stack;
pub mod text;
pub mod undo;
pub mod units;
pub mod value;
