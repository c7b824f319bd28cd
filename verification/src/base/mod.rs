//! The base plugins: bodies and rendering.

pub mod body;

use vstd::prelude::*;

verus! {

/// Installs the body and render plugins; installing needs the window, so it
/// runs in the application.
#[derive(Debug, Default)]
pub struct BasePlugin;

/// Installs the body physics and drawing systems (in the application).
#[derive(Debug, Default)]
pub struct BodyPlugin;

/// Installs the asset server and the sprite drawing system (in the
/// application).
#[derive(Debug, Default)]
pub struct RenderPlugin;

} // verus!
