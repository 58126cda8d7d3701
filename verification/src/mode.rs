//! The modes of the launcher: desktop applications, and the custom modes
//! that the configuration names.

use vstd::prelude::*;
use crate::text::same_text;

verus! {

/// A partition of the candidates. One mode is active at a time.
#[derive(Debug)]
pub enum Mode {
    Drun,
    Custom(String),
}

impl Mode {
    /// The characters of the mode's name as the menu shows it.
    pub open spec fn label(&self) -> Seq<char> {
        match self {
            Mode::Drun => "Drun"@,
            Mode::Custom(name) => name@,
        }
    }

    /// The mode's name as the menu shows it.
    pub fn to_string(&self) -> (s: String)
        ensures
            s@ == self.label(),
    {
        match self {
            Mode::Drun => "Drun".to_string(),
            Mode::Custom(name) => name.clone(),
        }
    }
}

impl Clone for Mode {
    fn clone(&self) -> (r: Self)
        ensures
            r == *self,
    {
        match self {
            Mode::Drun => Mode::Drun,
            Mode::Custom(name) => Mode::Custom(name.clone()),
        }
    }
}

impl PartialEq for Mode {
    fn eq(&self, other: &Self) -> (r: bool) {
        match (self, other) {
            (Mode::Drun, Mode::Drun) => true,
            (Mode::Custom(a), Mode::Custom(b)) => same_text(a.as_str(), b.as_str()),
            _ => false,
        }
    }
}

impl Eq for Mode {

}

impl vstd::std_specs::cmp::PartialEqSpecImpl for Mode {
    open spec fn obeys_eq_spec() -> bool {
        true
    }

    open spec fn eq_spec(&self, other: &Self) -> bool {
        match (self, other) {
            (Mode::Drun, Mode::Drun) => true,
            (Mode::Custom(a), Mode::Custom(b)) => a@ == b@,
            _ => false,
        }
    }
}

} // verus!
