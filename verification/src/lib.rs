//! The matching and ranking core of an application launcher: a catalog of
//! candidate entries, a fuzzy matcher, a usage-weight store and the session
//! controller that ties them together.
//!
//! The library decides; it neither reads files nor starts processes. The
//! program around it hands over what it read and performs the actions that
//! the session returns.

pub mod text;
pub mod fuzzy;
pub mod rank;
pub mod matcher;
pub mod freedesktop;
pub mod desktop_file;
pub mod db;
pub mod pools;
pub mod mode;
pub mod config;
pub mod entries;
pub mod command;
pub mod session;
pub mod style;

pub use mode::Mode;
