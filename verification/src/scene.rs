//! Editor-facing scene settings consulted by the host each frame.

use vstd::prelude::*;

verus! {

/// Presentation toggles for the host scene; the simulation itself never
/// reads them.
#[derive(Clone, Copy, Debug, PartialEq, Eq, Structural)]
pub struct SceneSettings {
    /// Whether spawner location markers are drawn.
    pub show_gizmos: bool,
}

impl Default for SceneSettings {
    fn default() -> (r: SceneSettings)
        ensures
            r == (SceneSettings { show_gizmos: true }),
    {
        SceneSettings { show_gizmos: true }
    }
}

/// The run condition for drawing spawner markers.
pub fn gizmos_active(settings: &SceneSettings) -> (r: bool)
    ensures
        r == settings.show_gizmos,
{
    settings.show_gizmos
}

} // verus!
