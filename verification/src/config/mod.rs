//! What the client knows about the user's terminal and settings.

pub mod appearance;
pub mod theme;
