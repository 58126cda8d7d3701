//! What the desktop-entry scan hands over: one record per application.

use vstd::prelude::*;

verus! {

/// The kind of image file an icon is kept in.
#[derive(Clone, Copy, Debug, PartialEq, Eq, Structural)]
pub enum Extension {
    SVG,
    PNG,
}

/// Where an entry's icon is found.
#[derive(Debug, PartialEq, Eq)]
pub struct IconPath {
    pub path: String,
    pub extension: Extension,
}

impl Clone for IconPath {
    fn clone(&self) -> (r: Self)
        ensures
            r == *self,
    {
        IconPath { path: self.path.clone(), extension: self.extension }
    }
}

/// A desktop application as the scan found it. Its identity is its name.
#[derive(Debug, PartialEq, Eq)]
pub struct DesktopEntry {
    pub name: String,
    pub icon: Option<IconPath>,
    pub exec_command: String,
    pub path: String,
}

impl Clone for DesktopEntry {
    fn clone(&self) -> (r: Self)
        ensures
            r == *self,
    {
        DesktopEntry {
            name: self.name.clone(),
            icon: self.icon.clone(),
            exec_command: self.exec_command.clone(),
            path: self.path.clone(),
        }
    }
}

} // verus!
