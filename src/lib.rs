//! An initiative tracker for turn-based tabletop combat: a roster of
//! combatants, a turn cursor that cycles through it, and a modal key-driven
//! interaction that adds, damages, heals, renames, re-rates and removes
//! combatants, with the text to display for each state.

pub mod roster;
pub mod text;
pub mod tracker;
pub mod view;
pub mod laws;
