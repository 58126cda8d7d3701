//! The launcher's settings: the custom modes, each with the command that
//! lists its candidates and the command that takes the selected one.

use vstd::prelude::*;
use crate::text::same_text;

verus! {

/// A custom mode as the configuration describes it.
#[derive(Debug, PartialEq, Eq)]
pub struct CustomMode {
    pub name: String,
    /// The command whose output lines are the mode's candidates.
    pub source: String,
    /// The command that is run on a selection, with `%` where the selected
    /// text goes.
    pub target: String,
}

impl Clone for CustomMode {
    fn clone(&self) -> (r: Self)
        ensures
            r == *self,
    {
        CustomMode {
            name: self.name.clone(),
            source: self.source.clone(),
            target: self.target.clone(),
        }
    }
}

/// What the launcher is configured with.
#[derive(Debug, PartialEq, Eq)]
pub struct OnagreSettings {
    /// The custom modes, in the order in which the menu shows them.
    pub modes: Vec<CustomMode>,
    /// Whether the launcher ends once a selection was launched.
    pub exit_after_launch: bool,
}

/// The first mode named `name` among `modes[from..]`.
pub open spec fn find_from(modes: Seq<CustomMode>, name: Seq<char>, from: int) -> Option<CustomMode>
    decreases modes.len() - from,
{
    if from < 0 || from >= modes.len() {
        None
    } else if modes[from].name@ == name {
        Some(modes[from])
    } else {
        find_from(modes, name, from + 1)
    }
}

/// The settings of mode `name`: of several modes with one name the first
/// counts.
pub open spec fn find_mode(modes: Seq<CustomMode>, name: Seq<char>) -> Option<CustomMode> {
    find_from(modes, name, 0)
}

impl OnagreSettings {
    /// The settings of mode `name`, if the configuration names it.
    pub fn get(&self, name: &str) -> (r: Option<&CustomMode>)
        ensures
            match r {
                Some(mode) => find_mode(self.modes@, name@) == Some(*mode),
                None => find_mode(self.modes@, name@) is None,
            },
    {
        let mut i: usize = 0;
        while i < self.modes.len()
            invariant
                i <= self.modes.len(),
                find_mode(self.modes@, name@) == find_from(self.modes@, name@, i as int),
            decreases self.modes.len() - i,
        {
            if same_text(self.modes[i].name.as_str(), name) {
                return Some(&self.modes[i]);
            }
            i = i + 1;
        }
        None
    }
}

impl Default for OnagreSettings {
    /// No custom mode; the launcher ends after a launch.
    fn default() -> (settings: Self)
        ensures
            settings.modes@ == Seq::<CustomMode>::empty(),
            settings.exit_after_launch,
    {
        OnagreSettings { modes: Vec::new(), exit_after_launch: true }
    }
}

} // verus!
