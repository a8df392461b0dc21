//! Core logic of a two-pane style terminal file manager: directory listings,
//! cursor paging, key maps, colour rules, command-line splitting, `/proc`
//! record parsing and the dialog state machines, each with its contract.
use vstd::prelude::*;

pub mod app;
pub mod config;
pub mod datetime;
pub mod dialogs;
pub mod display;
pub mod fields;
pub mod fs_utils;
pub mod input;
pub mod keymap;
pub mod keys;
pub mod lscolors;
pub mod namemap;
pub mod nav;
pub mod num;
pub mod ops;
pub mod order;
pub mod proc;
pub mod procview;
pub mod startup;
pub mod style;
pub mod text;
pub mod tree;
pub mod view;

verus! {
} // verus!
