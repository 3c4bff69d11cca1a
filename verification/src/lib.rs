//! Verified core of the ACU patch plugin: the packed version numbers and log
//! lines of the plugin-loader interface, the decisions behind the
//! integrity-check bypass, the game patches as plans of actions, and a model of
//! what those actions do to the game.
use vstd::prelude::*;

pub mod game;
pub mod patches;
pub mod plan;
pub mod platform;
pub mod plugin;
