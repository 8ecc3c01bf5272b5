//! A keyboard-driven list picker for the terminal, and the association of
//! lighting scenes with the rooms they belong to.
//!
//! - [`cursor`]: the picker's cursor and what each key does to it.
//! - [`selector`]: the picker itself and the text it writes to the terminal.
//! - [`term`]: the terminal's control sequences, as `termion` prints them.
//! - [`group_scene`]: rooms, scenes, and the scenes of each room.
//! - [`order`]: the order in which names are listed.

pub mod cursor;
pub mod group_scene;
pub mod order;
pub mod selector;
pub mod term;
