//! What the panels show.

pub mod conflict_mode;
