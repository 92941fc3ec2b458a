use vstd::prelude::*;

pub mod combat;
pub mod config;
pub mod dungeon;
pub mod player;
pub mod text;
pub mod character;
pub mod item;
pub mod rules;
pub mod hazard;
pub mod hunger;
pub mod clock;
pub mod event;
pub mod ids;
pub mod monster;
pub mod project;
pub mod magic;
pub mod editor;
pub mod game_state;
pub mod actions;
pub mod interact;
pub mod editor_state;
pub mod editor_ops;
pub mod validation;
pub mod player_combat;
pub mod floor_items;
pub mod data_actions;
pub mod demo;
pub mod message_log;
pub mod editor_view;
pub mod hud;
pub mod audio;
pub mod commands;

verus! {
} // verus!
