//! The logic of a terminal git client.

pub mod app;
pub mod config;
pub mod git;
pub mod gui;
pub mod model;
pub mod os;
pub mod pager;
pub mod pathmap;
pub mod text;
