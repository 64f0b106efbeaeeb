//! Verified logic of the homeCore administrative web interface: the data
//! shaping, parsing, filtering and state transitions behind its pages.
use vstd::prelude::*;

pub mod text;
pub mod json;
pub mod criteria;
pub mod modes;
pub mod events;
pub mod sort;
pub mod mode_list;
pub mod glue;
pub mod plugins;
pub mod actions;
pub mod drawer;
pub mod rules;
pub mod rule_kinds;
pub mod device_commands;
pub mod rule_editor;
pub mod rule_options;
pub mod rule_pickers;
pub mod devices;
pub mod activity_view;
pub mod login;
pub mod rule_values;
pub mod action_edits;
pub mod trigger_edits;
pub mod condition_edits;

verus! {
} // verus!
