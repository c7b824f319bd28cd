use vstd::prelude::*;

verus! {

/// Installs the planets' atmosphere drag and drawing systems (in the
/// application).
#[derive(Debug, Default)]
pub struct PlanetPlugin;

} // verus!
