use vstd::prelude::*;

verus! {

/// Installs the player's steering system (in the application).
#[derive(Debug, Default)]
pub struct PlayerPlugin;

/// The component that marks the body the player steers.
#[derive(Debug, Default)]
pub struct Player {
    /// Whether the camera follows this player.
    pub camera: bool,
}

} // verus!
