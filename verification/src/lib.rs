use vstd::prelude::*;

pub mod ability;
pub mod arena;
pub mod bedwars;
pub mod brush;
pub mod build_stamp;
pub mod chat;
pub mod command;
pub mod hud;
pub mod kit;
pub mod literal;
pub mod lives;
pub mod map;
pub mod scoreboard;
pub mod screen;
pub mod selector;
pub mod text;
pub mod vitals;

verus! {

} // verus!
