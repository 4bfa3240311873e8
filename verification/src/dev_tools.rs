//! Switches of the development tools.
use vstd::prelude::*;

verus! {

/// Which development tools are switched on.
#[derive(Clone, Copy, Debug, PartialEq, Eq, Structural)]
pub struct Data {
    /// Are the tools enabled at all?
    pub enabled: bool,
    /// Is the inspector of assets shown?
    pub assets: bool,
    /// Is the inspector of resources shown?
    pub resources: bool,
    /// Is the inspector of the world shown?
    pub world: bool,
}

impl Default for Data {
    fn default() -> (r: Data)
        ensures
            r == (Data { enabled: false, assets: false, resources: false, world: false }),
    {
        Data { enabled: false, assets: false, resources: false, world: false }
    }
}

/// The switches after the keys of a tick: the first key flips `enabled`;
/// while the tools are enabled, the second flips `world` and the third
/// `assets`. Only the first key in this order that was pressed counts.
pub open spec fn after_keys(data: Data, toggle_pressed: bool, world_pressed: bool, assets_pressed: bool) -> Data {
    if toggle_pressed {
        Data { enabled: !data.enabled, ..data }
    } else if !data.enabled {
        data
    } else if world_pressed {
        Data { world: !data.world, ..data }
    } else if assets_pressed {
        Data { assets: !data.assets, ..data }
    } else {
        data
    }
}

/// Tells whether the inspector of the world is to be shown.
pub fn world_inspector_visible(data: &Data) -> (r: bool)
    ensures
        r == (data.enabled && data.world),
{
    data.enabled && data.world
}

/// Flips the switches as the keys pressed in this tick ask.
pub fn handle_keymaps(data: &mut Data, toggle_pressed: bool, world_pressed: bool, assets_pressed: bool)
    ensures
        *final(data) == after_keys(*old(data), toggle_pressed, world_pressed, assets_pressed),
{
    if toggle_pressed {
        data.enabled = !data.enabled;
    } else if !data.enabled {
    } else if world_pressed {
        data.world = !data.world;
    } else if assets_pressed {
        data.assets = !data.assets;
    }
}

} // verus!
