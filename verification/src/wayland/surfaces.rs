//! The surface that covers a monitor behind everything else.
use vstd::prelude::*;

use crate::app::state::{App, Monitor, MonitorModel};

verus! {

/// The layers of a compositor, lowest first.
#[derive(Clone, Copy, Debug, PartialEq, Eq, Structural)]
pub enum SurfaceLayer {
    Background,
    Bottom,
    Top,
    Overlay,
}

/// How the surface of a monitor is set up.
pub struct LayerSettings {
    /// The compositor's object for the output that it lies on.
    pub output: Option<u32>,
    /// The number of the monitor, by which events of the surface are told apart.
    pub index: usize,
    pub layer: SurfaceLayer,
    pub namespace: &'static str,
    pub anchor_top: bool,
    pub anchor_bottom: bool,
    pub anchor_left: bool,
    pub anchor_right: bool,
    /// Size; zero leaves it to the anchors.
    pub width: u32,
    pub height: u32,
    pub margin: i32,
    pub keyboard: bool,
    /// The zone that others keep clear of; -1 extends the surface below those of others.
    pub exclusive_zone: i32,
}

/// The surface lies in the background, fills its monitor, takes no keyboard input and
/// reserves no space.
pub open spec fn is_wallpaper(s: LayerSettings) -> bool {
    &&& s.layer == SurfaceLayer::Background
    &&& s.namespace@ == "mpvwall"@
    &&& s.anchor_top && s.anchor_bottom && s.anchor_left && s.anchor_right
    &&& s.width == 0 && s.height == 0 && s.margin == 0
    &&& !s.keyboard
    &&& s.exclusive_zone == -1
}

impl App {
    /// Sets up the surface of `monitor`, the one with the number `monitor_index`, with a
    /// viewport where the compositor has them.
    pub fn create_surfaces(
        monitor: &mut Monitor,
        monitor_index: usize,
        viewporter: bool,
    ) -> (r: LayerSettings)
        ensures
            is_wallpaper(r),
            r.output == old(monitor)@.output,
            r.index == monitor_index,
            final(monitor)@ == (MonitorModel {
                surface: true,
                layer_surface: true,
                viewport: old(monitor)@.viewport || viewporter,
                ..old(monitor)@
            }),
    {
        if viewporter {
            monitor.viewport = true;
        }
        monitor.surface = true;
        monitor.layer_surface = true;
        LayerSettings {
            output: monitor.output,
            index: monitor_index,
            layer: SurfaceLayer::Background,
            namespace: "mpvwall",
            anchor_top: true,
            anchor_bottom: true,
            anchor_left: true,
            anchor_right: true,
            width: 0,
            height: 0,
            margin: 0,
            keyboard: false,
            exclusive_zone: -1,
        }
    }
}

/// A wallpaper lies below every other surface, reaches all four edges of its monitor, and takes
/// neither input nor space from others.
pub proof fn law_wallpaper_fills_the_background(s: LayerSettings)
    requires
        is_wallpaper(s),
    ensures
        s.layer == SurfaceLayer::Background,
        s.namespace@ == "mpvwall"@,
        s.anchor_top && s.anchor_bottom && s.anchor_left && s.anchor_right,
        s.width == 0 && s.height == 0,
        s.margin == 0,
        !s.keyboard,
        s.exclusive_zone == -1,
{
}

} // verus!
