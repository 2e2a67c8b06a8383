//! Stellar Legacy: the deterministic simulation rules of a generational
//! starship campaign, with their contracts proved by Verus.
//!
//! Every 0-1 quantity of the game (morale, hull integrity, a chance, a price
//! multiplier) is carried as a fixed-point integer in millionths (see
//! [`fixed`]). Random draws come from a [`rolls::Rolls`] tape that the caller
//! fills from its seeded generator, so every rule is verified for every value
//! the generator could produce.

pub mod fixed;
pub mod keys;
pub mod laws;
pub mod rule_laws;
pub mod legacy;
pub mod market;
pub mod mortality;
pub mod outcome;
pub mod queries;
pub mod config;
pub mod contract;
pub mod autoplay;
pub mod beats;
pub mod data;
pub mod deltas;
pub mod economy;
pub mod effects;
pub mod event_resolver;
pub mod factions;
pub mod rolls;
pub mod ship;
pub mod skeleton;
pub mod util;
pub mod voyage;
pub mod state;
pub mod subsystems;
pub mod succession;
pub mod text;
pub mod tick;
