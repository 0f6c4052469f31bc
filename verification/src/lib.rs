//! instantmenu: the menu logic of a dmenu-style launcher, verified.
use vstd::prelude::*;

pub mod geom;
pub mod geometry;
pub mod color;
pub mod color_names;
pub mod config;
pub mod cli;
pub mod backend;
pub mod text;
pub mod numbers;
pub mod enums;
pub mod icons;
pub mod input;
pub mod entry;
pub mod keybind;
pub mod menu;
pub mod pointer;
pub mod session;
pub mod appearance;
pub mod startup;
pub mod style;
pub mod frame;
pub mod itest;
pub mod keys;
pub mod layout;

verus! {
} // verus!
