//! The unit in which trigonometric functions take and give angles.
use vstd::prelude::*;

verus! {

#[derive(Clone, Copy, PartialEq, Eq, Structural, Debug)]
pub enum AngleMode {
    Deg,
    Rad,
    Grad,
}

/// The mode that follows `m` in the cycle Deg, Rad, Grad.
pub open spec fn next_angle_mode(m: AngleMode) -> AngleMode {
    match m {
        AngleMode::Deg => AngleMode::Rad,
        AngleMode::Rad => AngleMode::Grad,
        AngleMode::Grad => AngleMode::Deg,
    }
}

impl AngleMode {
    pub fn cycle(self) -> (r: AngleMode)
        ensures
            r == next_angle_mode(self),
    {
        match self {
            AngleMode::Deg => AngleMode::Rad,
            AngleMode::Rad => AngleMode::Grad,
            AngleMode::Grad => AngleMode::Deg,
        }
    }

    /// The status-bar label of the mode.
    pub fn to_string(&self) -> (r: String)
        ensures
            r@ == (match *self {
                AngleMode::Deg => "DEG"@,
                AngleMode::Rad => "RAD"@,
                AngleMode::Grad => "GRD"@,
            }),
    {
        match self {
            AngleMode::Deg => String::from_str("DEG"),
            AngleMode::Rad => String::from_str("RAD"),
            AngleMode::Grad => String::from_str("GRD"),
        }
    }
}

/// Cycling through the angle modes three times comes back to the start.
pub proof fn law_angle_cycle_period(m: AngleMode)
    ensures
        next_angle_mode(next_angle_mode(next_angle_mode(m))) == m,
        next_angle_mode(m) != m,
{
}

} // verus!
