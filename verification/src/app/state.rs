//! Monitors and the state of the player.
use vstd::prelude::*;

use crate::app::buffers;
use crate::app::buffers::{BufferModel, BufferPlan, BufferPool};
use crate::drm_frame::DrmFrame;
use crate::render::state::RenderState;
use crate::timing::{Timing, TimingModel};

verus! {

/// A monitor of the compositor and the surface on it.
pub struct Monitor {
    pub name: Option<String>,
    /// The compositor's object for the output.
    pub output: Option<u32>,
    /// Whether there is a surface on it.
    pub surface: bool,
    /// Whether the surface is one of a layer.
    pub layer_surface: bool,
    /// Whether the surface has a viewport.
    pub viewport: bool,
    pub physical_width: u32,
    pub physical_height: u32,
    pub logical_width: u32,
    pub logical_height: u32,
    pub configured: bool,
}

/// The contents of a [`Monitor`].
pub struct MonitorModel {
    pub name: Option<Seq<char>>,
    pub output: Option<u32>,
    pub surface: bool,
    pub layer_surface: bool,
    pub viewport: bool,
    pub physical_width: u32,
    pub physical_height: u32,
    pub logical_width: u32,
    pub logical_height: u32,
    pub configured: bool,
}

impl View for Monitor {
    type V = MonitorModel;

    open spec fn view(&self) -> MonitorModel {
        MonitorModel {
            name: match self.name {
                Some(n) => Some(n@),
                None => None,
            },
            output: self.output,
            surface: self.surface,
            layer_surface: self.layer_surface,
            viewport: self.viewport,
            physical_width: self.physical_width,
            physical_height: self.physical_height,
            logical_width: self.logical_width,
            logical_height: self.logical_height,
            configured: self.configured,
        }
    }
}

/// The contents of a list of monitors.
pub open spec fn monitor_models(monitors: Seq<Monitor>) -> Seq<MonitorModel> {
    Seq::new(monitors.len(), |i: int| monitors[i]@)
}

impl Monitor {
    /// A monitor of which nothing is known but its output.
    pub fn new(output: u32) -> (r: Self)
        ensures
            r@ == (MonitorModel {
                name: None,
                output: Some(output),
                surface: false,
                layer_surface: false,
                viewport: false,
                physical_width: 0,
                physical_height: 0,
                logical_width: 0,
                logical_height: 0,
                configured: false,
            }),
    {
        Monitor {
            name: None,
            output: Some(output),
            surface: false,
            layer_surface: false,
            viewport: false,
            physical_width: 0,
            physical_height: 0,
            logical_width: 0,
            logical_height: 0,
            configured: false,
        }
    }
}

/// The state of the player. What belongs to the compositor or to a library is held by
/// the program; here stands whether it is there.
pub struct App {
    /// Whether the compositor imports DMA-BUFs.
    pub dmabuf: bool,
    /// The number of the compositor's device, as the compositor sent it.
    pub dmabuf_main_device: Option<Vec<u8>>,
    pub wl_buffer_states: BufferPool,
    /// Whether the colour converter is set up.
    pub converter: bool,
    pub monitors: Vec<Monitor>,
    /// Whether there is a main loop to stop.
    pub main_loop_signal: bool,
    pub configured: bool,
    pub render_states: Vec<RenderState>,
    pub timing: Timing,
    pub last_pts: Option<i64>,
    /// Frames shown since the start.
    pub committed_frames: u64,
    pub dropped_frames: u64,
    /// Frames shown since the last statistics.
    pub frames_per_stats_sample: u64,
    pub last_stats_time: Option<u64>,
}

/// The contents of an [`App`].
pub struct AppModel {
    pub dmabuf: bool,
    pub dmabuf_main_device: Option<Seq<u8>>,
    pub buffers: Seq<Option<BufferModel>>,
    pub converter: bool,
    pub monitors: Seq<MonitorModel>,
    pub main_loop_signal: bool,
    pub configured: bool,
    pub render_states: Seq<RenderState>,
    pub timing: TimingModel,
    pub last_pts: Option<i64>,
    pub committed_frames: u64,
    pub dropped_frames: u64,
    pub frames_per_stats_sample: u64,
    pub last_stats_time: Option<u64>,
}

impl View for App {
    type V = AppModel;

    open spec fn view(&self) -> AppModel {
        AppModel {
            dmabuf: self.dmabuf,
            dmabuf_main_device: match self.dmabuf_main_device {
                Some(v) => Some(v@),
                None => None,
            },
            buffers: self.wl_buffer_states@,
            converter: self.converter,
            monitors: monitor_models(self.monitors@),
            main_loop_signal: self.main_loop_signal,
            configured: self.configured,
            render_states: self.render_states@,
            timing: self.timing@,
            last_pts: self.last_pts,
            committed_frames: self.committed_frames,
            dropped_frames: self.dropped_frames,
            frames_per_stats_sample: self.frames_per_stats_sample,
            last_stats_time: self.last_stats_time,
        }
    }
}

/// Why there is no buffer for a frame.
#[derive(Clone, Copy, Debug, PartialEq, Eq, Structural)]
pub enum BufferError {
    /// The colour converter is not set up.
    NoConverter,
}

impl BufferError {
    /// What to say of the error.
    pub fn text(&self) -> (r: &'static str)
        ensures
            r@ == (match *self {
                BufferError::NoConverter => "VaapiConverter not initialized"@,
            }),
    {
        match self {
            BufferError::NoConverter => "VaapiConverter not initialized",
        }
    }
}

impl App {
    /// The state before anything is known of the compositor.
    pub fn new(dmabuf: bool, timing: Timing) -> (r: Self)
        ensures
            r@ == (AppModel {
                dmabuf,
                dmabuf_main_device: None,
                buffers: seq![None::<BufferModel>, None, None],
                converter: false,
                monitors: seq![],
                main_loop_signal: false,
                configured: false,
                render_states: seq![],
                timing: timing@,
                last_pts: None,
                committed_frames: 0,
                dropped_frames: 0,
                frames_per_stats_sample: 0,
                last_stats_time: None,
            }),
    {
        let r = App {
            dmabuf,
            dmabuf_main_device: None,
            wl_buffer_states: BufferPool::new(),
            converter: false,
            monitors: Vec::new(),
            main_loop_signal: false,
            configured: false,
            render_states: Vec::new(),
            timing,
            last_pts: None,
            committed_frames: 0,
            dropped_frames: 0,
            frames_per_stats_sample: 0,
            last_stats_time: None,
        };
        assert(r@.monitors =~= Seq::<MonitorModel>::empty());
        r
    }

    /// Where the next frame goes: into a released buffer, else into a new one;
    /// `Ok(None)` where every buffer is in use. Filling one takes the converter.
    pub fn acquire_or_create_buffer(&self) -> (r: Result<Option<BufferPlan>, BufferError>)
        ensures
            r == match buffers::plan_of(self@.buffers) {
                None => Ok(None),
                Some(p) => if self@.converter {
                    Ok(Some(p))
                } else {
                    Err(BufferError::NoConverter)
                },
            },
            self@.buffers.len() == buffers::POOL_SIZE,
    {
        match self.wl_buffer_states.plan() {
            Some(p) => {
                if !self.converter {
                    return Err(BufferError::NoConverter);
                }
                Ok(Some(p))
            },
            None => Ok(None),
        }
    }

    /// Gives up the compositor's object of the buffer that is used again; returns it, so
    /// that it can be destroyed.
    pub fn retire_buffer(&mut self, plan: BufferPlan) -> (r: Option<u32>)
        requires
            buffers::place_of(plan) < old(self)@.buffers.len(),
        ensures
            old(self)@.buffers[buffers::place_of(plan)] is None ==> r is None && final(self)@ == old(self)@,
            old(self)@.buffers[buffers::place_of(plan)] matches Some(b) ==> r == b.wl_buffer && final(self)@
                == (AppModel {
                buffers: old(self)@.buffers.update(
                    buffers::place_of(plan),
                    Some(BufferModel { wl_buffer: None, ..b }),
                ),
                ..old(self)@
            }),
            final(self)@.buffers.len() == buffers::POOL_SIZE,
    {
        let place: usize = match plan {
            BufferPlan::Reuse(i) => i,
            BufferPlan::Create(i) => i,
        };
        self.wl_buffer_states.retire(place)
    }

    /// Puts the filled buffer where the plan says; it is in use from now on.
    pub fn install_buffer(&mut self, plan: BufferPlan, frame: DrmFrame, wl_buffer: u32)
        requires
            buffers::place_of(plan) < old(self)@.buffers.len(),
        ensures
            final(self)@ == (AppModel {
                buffers: old(self)@.buffers.update(
                    buffers::place_of(plan),
                    Some(
                        BufferModel { wl_buffer: Some(wl_buffer), frame: frame@, in_use: true },
                    ),
                ),
                ..old(self)@
            }),
            final(self)@.buffers.len() == buffers::POOL_SIZE,
    {
        self.wl_buffer_states.install(plan, frame, wl_buffer);
    }

    /// Takes note that the compositor released the buffer `id`.
    pub fn release_buffer(&mut self, id: u32)
        ensures
            final(self)@ == (AppModel { buffers: buffers::released(old(self)@.buffers, id), ..old(self)@ }),
            final(self)@.buffers.len() == buffers::POOL_SIZE,
    {
        self.wl_buffer_states.release(id);
    }
}

/// The contents of a list of monitors are those of each, in the same order.
pub proof fn law_monitors_keep_their_places(monitors: Seq<Monitor>, i: int)
    requires
        0 <= i < monitors.len(),
    ensures
        monitor_models(monitors).len() == monitors.len(),
        monitor_models(monitors)[i] == monitors[i]@,
{
}

} // verus!
