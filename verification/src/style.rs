//! The look of the launcher's widgets, as plain values.

pub mod color;
pub mod layout;
pub mod search;
