//! The calculator state: the value stack, named registers and display modes.
use vstd::prelude::*;
use crate::angle::AngleMode;
use crate::base::{Base, HexStyle};
use crate::error::{CalcError, ErrorModel};
use crate::units::str_eq;
use crate::value::{CalcValue, Num};

verus! {

/// The calculator state. The top of the stack is the last element.
#[derive(Debug)]
pub struct CalcState {
    pub stack: Vec<CalcValue>,
    pub registers: Vec<(String, CalcValue)>,
    pub angle_mode: AngleMode,
    pub base: Base,
    pub hex_style: HexStyle,
}

/// The mathematical content of a [`CalcState`].
pub struct StateModel {
    pub stack: Seq<Num>,
    pub registers: Seq<(Seq<char>, Num)>,
    pub angle_mode: AngleMode,
    pub base: Base,
    pub hex_style: HexStyle,
}

pub open spec fn values_model(v: Seq<CalcValue>) -> Seq<Num> {
    v.map_values(|x: CalcValue| x@)
}

pub open spec fn registers_model(r: Seq<(String, CalcValue)>) -> Seq<(Seq<char>, Num)> {
    r.map_values(|p: (String, CalcValue)| (p.0@, p.1@))
}

impl View for CalcState {
    type V = StateModel;

    open spec fn view(&self) -> StateModel {
        StateModel {
            stack: values_model(self.stack@),
            registers: registers_model(self.registers@),
            angle_mode: self.angle_mode,
            base: self.base,
            hex_style: self.hex_style,
        }
    }
}

impl StateModel {
    /// The same state with another stack.
    pub open spec fn with_stack(self, stack: Seq<Num>) -> StateModel {
        StateModel { stack, ..self }
    }
}

/// The top two entries exchanged.
pub open spec fn swap_model(s: Seq<Num>) -> Seq<Num>
    recommends
        s.len() >= 2,
{
    s.take(s.len() - 2).push(s[s.len() - 1]).push(s[s.len() - 2])
}

/// The top entry moved below the next two: `a b c` becomes `c a b`.
pub open spec fn rotate_model(s: Seq<Num>) -> Seq<Num>
    recommends
        s.len() >= 3,
{
    s.take(s.len() - 3).push(s[s.len() - 1]).push(s[s.len() - 3]).push(s[s.len() - 2])
}

impl CalcState {
    /// Every value is in canonical form, and no register name occurs twice.
    pub open spec fn wf(&self) -> bool {
        &&& forall|i: int| 0 <= i < self.stack@.len() ==> #[trigger] self.stack@[i].wf()
        &&& forall|i: int| 0 <= i < self.registers@.len() ==> #[trigger] self.registers@[i].1.wf()
        &&& forall|i: int, j: int|
            0 <= i < j < self.registers@.len() ==> #[trigger] self.registers@[i].0@
                != #[trigger] self.registers@[j].0@
    }

    /// Whether every value is in canonical form.
    pub fn is_well_formed(&self) -> (r: bool)
        ensures
            r == self.wf(),
    {
        let n = self.stack.len();
        for i in 0..n
            invariant
                n == self.stack@.len(),
                forall|j: int| 0 <= j < i ==> #[trigger] self.stack@[j].wf(),
        {
            if !self.stack[i].is_well_formed() {
                return false;
            }
        }
        let m = self.registers.len();
        for i in 0..m
            invariant
                m == self.registers@.len(),
                n == self.stack@.len(),
                forall|j: int| 0 <= j < n ==> #[trigger] self.stack@[j].wf(),
                forall|j: int| 0 <= j < i ==> #[trigger] self.registers@[j].1.wf(),
                forall|j: int, k: int|
                    0 <= j < k < i ==> #[trigger] self.registers@[j].0@
                        != #[trigger] self.registers@[k].0@,
        {
            if !self.registers[i].1.is_well_formed() {
                return false;
            }
            for j in 0..i
                invariant
                    m == self.registers@.len(),
                    i < m,
                    forall|k: int| 0 <= k < j ==> #[trigger] self.registers@[k].0@
                        != self.registers@[i as int].0@,
            {
                if str_eq(self.registers[j].0.as_str(), self.registers[i].0.as_str()) {
                    return false;
                }
            }
        }
        true
    }

    /// An empty stack, no registers, degrees, decimal, `0x` prefix.
    pub fn new() -> (r: CalcState)
        ensures
            r.wf(),
            r@.stack.len() == 0,
            r@.registers.len() == 0,
            r@.angle_mode == AngleMode::Deg,
            r@.base == Base::Dec,
            r@.hex_style == HexStyle::ZeroX,
    {
        CalcState {
            stack: Vec::new(),
            registers: Vec::new(),
            angle_mode: AngleMode::Deg,
            base: Base::Dec,
            hex_style: HexStyle::ZeroX,
        }
    }

    pub fn depth(&self) -> (r: usize)
        ensures
            r == self@.stack.len(),
    {
        self.stack.len()
    }

    pub fn is_empty(&self) -> (r: bool)
        ensures
            r == (self@.stack.len() == 0),
    {
        self.stack.len() == 0
    }

    /// The top value, if any.
    pub fn peek(&self) -> (r: Option<&CalcValue>)
        ensures
            self@.stack.len() == 0 ==> r is None,
            self@.stack.len() > 0 ==> r is Some && r->0@ == self@.stack.last(),
            self.wf() && r is Some ==> r->0.wf(),
    {
        let n = self.stack.len();
        if n == 0 {
            None
        } else {
            Some(&self.stack[n - 1])
        }
    }

    pub fn push(&mut self, v: CalcValue)
        requires
            old(self).wf(),
            v.wf(),
        ensures
            final(self).wf(),
            final(self)@ == old(self)@.with_stack(old(self)@.stack.push(v@)),
    {
        self.stack.push(v);
        proof {
            assert(values_model(self.stack@) =~= values_model(old(self).stack@).push(v@));
        }
    }

    /// Removes and returns the top value; `None` and no change on an empty stack.
    pub fn pop(&mut self) -> (r: Option<CalcValue>)
        requires
            old(self).wf(),
        ensures
            final(self).wf(),
            old(self)@.stack.len() == 0 ==> r is None && final(self)@ == old(self)@,
            old(self)@.stack.len() > 0 ==> {
                &&& r is Some
                &&& r->0@ == old(self)@.stack.last()
                &&& r->0.wf()
                &&& final(self)@ == old(self)@.with_stack(old(self)@.stack.drop_last())
            },
    {
        let r = self.stack.pop();
        proof {
            if old(self).stack@.len() > 0 {
                assert(values_model(self.stack@) =~= values_model(old(self).stack@).drop_last());
                assert(old(self).stack@[old(self).stack@.len() - 1].wf());
            } else {
                assert(values_model(self.stack@) =~= values_model(old(self).stack@));
            }
        }
        r
    }

    /// Exchanges the top two values.
    pub fn swap(&mut self) -> (r: Result<(), CalcError>)
        requires
            old(self).wf(),
        ensures
            final(self).wf(),
            old(self)@.stack.len() < 2 ==> r is Err && r->Err_0@ == ErrorModel::StackUnderflow
                && final(self)@ == old(self)@,
            old(self)@.stack.len() >= 2 ==> r is Ok && final(self)@ == old(self)@.with_stack(
                swap_model(old(self)@.stack),
            ),
    {
        if self.stack.len() < 2 {
            return Err(CalcError::StackUnderflow);
        }
        let b = self.pop().unwrap();
        let a = self.pop().unwrap();
        self.push(b);
        self.push(a);
        proof {
            assert(self@.stack =~= swap_model(old(self)@.stack));
        }
        Ok(())
    }

    /// Pushes a copy of the top value.
    pub fn dup(&mut self) -> (r: Result<(), CalcError>)
        requires
            old(self).wf(),
        ensures
            final(self).wf(),
            old(self)@.stack.len() == 0 ==> r is Err && r->Err_0@ == ErrorModel::StackUnderflow
                && final(self)@ == old(self)@,
            old(self)@.stack.len() > 0 ==> r is Ok && final(self)@ == old(self)@.with_stack(
                old(self)@.stack.push(old(self)@.stack.last()),
            ),
    {
        let n = self.stack.len();
        if n == 0 {
            return Err(CalcError::StackUnderflow);
        }
        let top = self.stack[n - 1].clone();
        proof {
            assert(self.stack@[n - 1].wf());
        }
        self.push(top);
        Ok(())
    }

    /// Removes the top value.
    pub fn drop(&mut self) -> (r: Result<(), CalcError>)
        requires
            old(self).wf(),
        ensures
            final(self).wf(),
            old(self)@.stack.len() == 0 ==> r is Err && r->Err_0@ == ErrorModel::StackUnderflow
                && final(self)@ == old(self)@,
            old(self)@.stack.len() > 0 ==> r is Ok && final(self)@ == old(self)@.with_stack(
                old(self)@.stack.drop_last(),
            ),
    {
        if self.stack.len() == 0 {
            return Err(CalcError::StackUnderflow);
        }
        let _ = self.pop();
        Ok(())
    }

    /// Moves the top value below the next two (`a b c` becomes `c a b`).
    pub fn rotate(&mut self) -> (r: Result<(), CalcError>)
        requires
            old(self).wf(),
        ensures
            final(self).wf(),
            old(self)@.stack.len() < 3 ==> r is Err && r->Err_0@ == ErrorModel::StackUnderflow
                && final(self)@ == old(self)@,
            old(self)@.stack.len() >= 3 ==> r is Ok && final(self)@ == old(self)@.with_stack(
                rotate_model(old(self)@.stack),
            ),
    {
        if self.stack.len() < 3 {
            return Err(CalcError::StackUnderflow);
        }
        let c = self.pop().unwrap();
        let b = self.pop().unwrap();
        let a = self.pop().unwrap();
        self.push(c);
        self.push(a);
        self.push(b);
        proof {
            assert(self@.stack =~= rotate_model(old(self)@.stack));
        }
        Ok(())
    }

    /// Empties the stack; registers and modes stay.
    pub fn clear(&mut self)
        requires
            old(self).wf(),
        ensures
            final(self).wf(),
            final(self)@ == old(self)@.with_stack(Seq::empty()),
    {
        self.stack.clear();
        proof {
            assert(values_model(self.stack@) =~= Seq::<Num>::empty());
        }
    }
}

impl Clone for CalcState {
    fn clone(&self) -> (r: Self)
        ensures
            r@ == self@,
            self.wf() ==> r.wf(),
    {
        let mut stack: Vec<CalcValue> = Vec::new();
        let n = self.stack.len();
        for i in 0..n
            invariant
                n == self.stack@.len(),
                stack@.len() == i,
                forall|j: int| 0 <= j < i ==> #[trigger] stack@[j]@ == self.stack@[j]@,
                forall|j: int|
                    0 <= j < i ==> (#[trigger] stack@[j].wf() == self.stack@[j].wf()),
        {
            stack.push(self.stack[i].clone());
        }
        let mut registers: Vec<(String, CalcValue)> = Vec::new();
        let m = self.registers.len();
        for i in 0..m
            invariant
                m == self.registers@.len(),
                registers@.len() == i,
                forall|j: int|
                    0 <= j < i ==> {
                        let p = #[trigger] registers@[j];
                        &&& p.0@ == self.registers@[j].0@
                        &&& p.1@ == self.registers@[j].1@
                        &&& p.1.wf() == self.registers@[j].1.wf()
                    },
        {
            let name = self.registers[i].0.clone();
            let value = self.registers[i].1.clone();
            registers.push((name, value));
        }
        let r = CalcState {
            stack,
            registers,
            angle_mode: self.angle_mode,
            base: self.base,
            hex_style: self.hex_style,
        };
        proof {
            assert(values_model(r.stack@) =~= values_model(self.stack@));
            assert(registers_model(r.registers@) =~= registers_model(self.registers@));
            if self.wf() {
                assert forall|j: int| 0 <= j < r.stack@.len() implies #[trigger] r.stack@[j].wf() by {
                    assert(self.stack@[j].wf());
                }
                assert forall|j: int| 0 <= j < r.registers@.len() implies #[trigger] r.registers@[j].1.wf() by {
                    assert(self.registers@[j].1.wf());
                }
                assert forall|j: int, k: int|
                    0 <= j < k < r.registers@.len() implies #[trigger] r.registers@[j].0@
                        != #[trigger] r.registers@[k].0@ by {
                    assert(self.registers@[j].0@ != self.registers@[k].0@);
                }
            }
        }
        r
    }
}

/// Exchanging the top two entries twice restores the stack.
pub proof fn law_swap_involution(s: Seq<Num>)
    requires
        s.len() >= 2,
    ensures
        swap_model(swap_model(s)) == s,
{
    assert(swap_model(swap_model(s)) =~= s);
}

/// Rotating three times restores the stack.
pub proof fn law_rotate_period(s: Seq<Num>)
    requires
        s.len() >= 3,
    ensures
        rotate_model(rotate_model(rotate_model(s))) == s,
{
    assert(rotate_model(rotate_model(rotate_model(s))) =~= s);
}

} // verus!
