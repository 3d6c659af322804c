//! What the client asks of the operating system.

pub mod editor;
