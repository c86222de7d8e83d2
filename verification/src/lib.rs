//! The core of a tiling, horizontally scrolling window manager: entities,
//! layout, focus bookkeeping, pointer gestures, key bindings and animations.
//!
//! The library owns the state and decides; it never talks to a compositor.
//! Every operation that would touch a surface returns the commands to carry
//! out instead.

pub mod geometry;
pub mod mru_list;
pub mod entities;
pub mod workspace;
pub mod animation;
pub mod state;
pub mod layout;
pub mod focus;
pub mod actions;
pub mod pointer;
pub mod policy;
pub mod shortcuts;
pub mod keyboard;
pub mod config;
pub mod input_inhibitor;
pub mod laws;
pub mod invariants;
pub mod bindings;
pub mod outcomes;
