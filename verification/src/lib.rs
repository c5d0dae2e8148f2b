//! A small farming simulation for a character-cell terminal.
//!
//! The crate holds the two halves that run on every tick: the simulation,
//! which advances a table of entities and the narrative, and the compositor,
//! which draws that table into a grid of terminal cells, two pixel rows per
//! cell. Reading keys, loading sheets from disk and writing to the terminal
//! are left to the program that drives the loop.

pub mod actions;
pub mod animate;
pub mod catalog;
pub mod chance;
pub mod held;
pub mod input;
pub mod laws;
pub mod measure;
pub mod narrative;
pub mod npc;
pub mod order;
pub mod outcome;
pub mod player;
pub mod render;
pub mod screen;
pub mod search;
pub mod setup;
pub mod sprite;
pub mod state;
pub mod update;
pub mod world;
