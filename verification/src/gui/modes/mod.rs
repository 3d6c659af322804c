//! The modes that take over the whole screen.

pub mod conflict_mode;
