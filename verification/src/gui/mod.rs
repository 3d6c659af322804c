//! The user interface: what keys and the mouse do, and what is shown.

pub mod controller;
pub mod ai_job;
pub mod areas;
pub mod background;
pub mod context;
pub mod diff_cache;
pub mod diff_jobs;
pub mod diff_keys;
pub mod diff_load;
pub mod diff_mode;
pub mod diff_pane;
pub mod hunks;
pub mod input;
pub mod interactive;
pub mod keys;
pub mod layout;
pub mod main_loop;
pub mod modes;
pub mod mouse;
pub mod picker;
pub mod popup;
pub mod presentation;
pub mod refresh;
pub mod search;
pub mod selection;
pub mod startup;
pub mod textarea;
pub mod undo;
