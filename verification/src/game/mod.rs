//! The game plugins: the galaxy, the player and the planets.

pub mod planet;
pub mod player;
pub mod world;

use vstd::prelude::*;

verus! {

/// Installs the galaxy, player and planet plugins (in the application).
#[derive(Debug, Default)]
pub struct GamePlugin;

/// Installs the heads-up display (in the application).
#[derive(Debug, Default)]
pub struct GUIPlugin;

} // verus!
