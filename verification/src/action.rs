//! What a key press or command asks the calculator to do.
use vstd::prelude::*;
use crate::angle::AngleMode;
use crate::base::{Base, HexStyle};
use crate::ops::Op;
use crate::value::CalcValue;

verus! {

#[derive(Debug, Clone, PartialEq)]
pub enum Action {
    Push(CalcValue),
    Execute(Op),
    SetBase(Base),
    SetAngleMode(AngleMode),
    SetHexStyle(HexStyle),
    StoreRegister(String),
    RecallRegister(String),
    DeleteRegister(String),
    Undo,
    Redo,
    Yank,
    EnterAlphaMode,
    Quit,
    Noop,
}

} // verus!
