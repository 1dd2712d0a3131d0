//! User configuration.
use vstd::prelude::*;
use crate::angle::AngleMode;
use crate::base::Base;

verus! {

pub struct Config {
    pub angle_mode: AngleMode,
    pub base: Base,
    pub precision: usize,
    pub max_undo_history: usize,
    pub persist_session: bool,
}

impl Config {
    /// The configuration in effect: the defaults.
    pub fn load() -> (r: Self)
        ensures
            r.is_default(),
    {
        Self::default()
    }

    /// Degrees, decimal, 15 digits, 1000 undo steps, sessions saved.
    pub open spec fn is_default(&self) -> bool {
        &&& self.angle_mode == AngleMode::Deg
        &&& self.base == Base::Dec
        &&& self.precision == 15
        &&& self.max_undo_history == 1000
        &&& self.persist_session
    }
}

impl Default for Config {
    fn default() -> (r: Self)
        ensures
            r.is_default(),
    {
        Self {
            angle_mode: AngleMode::Deg,
            base: Base::Dec,
            precision: 15,
            max_undo_history: 1000,
            persist_session: true,
        }
    }
}

} // verus!
