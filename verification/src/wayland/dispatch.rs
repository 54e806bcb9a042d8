//! Events of the compositor's objects.
use vstd::prelude::*;

use crate::app::state;
use crate::app::state::{App, AppModel, Monitor, MonitorModel};

verus! {

/// An event of an output.
pub enum OutputEvent {
    /// The resolution of the output.
    Mode { width: i32, height: i32 },
    /// The name of the connector.
    Name { name: String },
    /// Any other event.
    Other,
}

/// The answer to a configure event of a layer surface.
#[derive(Clone, Copy, Debug, PartialEq, Eq)]
pub struct ConfigureAnswer {
    /// The size to give to the viewport.
    pub destination: Option<(i32, i32)>,
    /// Whether the surface is committed.
    pub commit: bool,
    /// The serial to acknowledge, after the above.
    pub ack: u32,
}

/// The position of the first monitor on the output `id`, or the number of monitors
/// where there is none.
pub open spec fn monitor_on(monitors: Seq<MonitorModel>, id: u32) -> nat
    decreases monitors.len(),
{
    if monitors.len() == 0 || monitors[0].output == Some(id) {
        0
    } else {
        1 + monitor_on(monitors.skip(1), id)
    }
}

/// The monitor after an event of its output. The resolution is taken as it comes, so a
/// negative one wraps around.
pub open spec fn after_output_event(m: MonitorModel, event: OutputEvent) -> MonitorModel {
    match event {
        OutputEvent::Mode { width, height } => MonitorModel {
            physical_width: width as u32,
            physical_height: height as u32,
            ..m
        },
        OutputEvent::Name { name } => MonitorModel { name: Some(name@), ..m },
        OutputEvent::Other => m,
    }
}

pub open spec fn all_configured(monitors: Seq<MonitorModel>) -> bool {
    forall|i: int| 0 <= i < monitors.len() ==> (#[trigger] monitors[i]).configured
}

/// The monitor after the compositor configured its surface.
pub open spec fn configured_monitor(m: MonitorModel, width: u32, height: u32) -> MonitorModel {
    MonitorModel { logical_width: width, logical_height: height, configured: true, ..m }
}

/// The state after the compositor configured the surface of monitor `index`. Once all
/// monitors are configured, nothing changes any more.
pub open spec fn after_configure(a: AppModel, index: usize, width: u32, height: u32) -> AppModel {
    if index < a.monitors.len() && !a.configured {
        let monitors = a.monitors.update(
            index as int,
            configured_monitor(a.monitors[index as int], width, height),
        );
        AppModel { monitors, configured: all_configured(monitors), ..a }
    } else {
        a
    }
}

/// The answer to the configure event.
pub open spec fn configure_answer(
    a: AppModel,
    index: usize,
    serial: u32,
    width: u32,
    height: u32,
) -> ConfigureAnswer {
    if index < a.monitors.len() && !a.configured {
        ConfigureAnswer {
            destination: if a.monitors[index as int].viewport {
                Some((width as i32, height as i32))
            } else {
                None
            },
            commit: a.monitors[index as int].surface,
            ack: serial,
        }
    } else {
        ConfigureAnswer { destination: None, commit: false, ack: serial }
    }
}

proof fn lemma_monitor_on(monitors: Seq<MonitorModel>, id: u32, k: nat)
    requires
        k <= monitors.len(),
        forall|j: int| 0 <= j < k ==> (#[trigger] monitors[j]).output != Some(id),
        k == monitors.len() || monitors[k as int].output == Some(id),
    ensures
        monitor_on(monitors, id) == k,
    decreases k,
{
    if k > 0 {
        assert(monitors[0].output != Some(id));
        assert forall|j: int| 0 <= j < k - 1 implies (#[trigger] monitors.skip(1)[j]).output != Some(
            id,
        ) by {
            assert(monitors.skip(1)[j] == monitors[j + 1]);
        }
        lemma_monitor_on(monitors.skip(1), id, (k - 1) as nat);
    }
}

/// Whether all monitors are configured.
fn check_all_configured(monitors: &Vec<Monitor>) -> (r: bool)
    ensures
        r == all_configured(state::monitor_models(monitors@)),
{
    let ghost models = state::monitor_models(monitors@);
    let mut i: usize = 0;
    while i < monitors.len()
        invariant
            i <= monitors.len(),
            models == state::monitor_models(monitors@),
            forall|j: int| 0 <= j < i ==> (#[trigger] models[j]).configured,
        decreases monitors.len() - i,
    {
        assert(models[i as int] == monitors@[i as int]@);
        if !monitors[i].configured {
            return false;
        }
        i += 1;
    }
    true
}

impl App {
    /// An event of the output `id`.
    pub fn output_event(&mut self, id: u32, event: OutputEvent)
        ensures
            ({
                let i = monitor_on(old(self)@.monitors, id);
                if i < old(self)@.monitors.len() {
                    final(self)@ == (AppModel {
                        monitors: old(self)@.monitors.update(
                            i as int,
                            after_output_event(old(self)@.monitors[i as int], event),
                        ),
                        ..old(self)@
                    })
                } else {
                    final(self)@ == old(self)@
                }
            }),
    {
        let ghost before = self@;
        let mut i: usize = 0;
        while i < self.monitors.len()
            invariant
                i <= self.monitors.len(),
                before == old(self)@,
                self@ == before,
                forall|j: int|
                    0 <= j < i ==> (#[trigger] before.monitors[j]).output != Some(id),
            decreases self.monitors.len() - i,
        {
            assert(before.monitors[i as int] == self.monitors@[i as int]@);
            let found: bool = match self.monitors[i].output {
                Some(x) => x == id,
                None => false,
            };
            if found {
                proof {
                    lemma_monitor_on(before.monitors, id, i as nat);
                }
                let monitor = &mut self.monitors[i];
                match event {
                    OutputEvent::Mode { width, height } => {
                        monitor.physical_width = width as u32;
                        monitor.physical_height = height as u32;
                    },
                    OutputEvent::Name { name } => {
                        monitor.name = Some(name);
                    },
                    OutputEvent::Other => {},
                }
                assert(self@.monitors =~= before.monitors.update(
                    i as int,
                    after_output_event(before.monitors[i as int], event),
                ));
                return;
            }
            i += 1;
        }
        proof {
            lemma_monitor_on(before.monitors, id, before.monitors.len());
        }
    }

    /// The compositor configured the surface of monitor `index`.
    pub fn configure(&mut self, index: usize, serial: u32, width: u32, height: u32) -> (r:
        ConfigureAnswer)
        ensures
            final(self)@ == after_configure(old(self)@, index, width, height),
            r == configure_answer(old(self)@, index, serial, width, height),
    {
        let ghost before = self@;
        if index >= self.monitors.len() || self.configured {
            return ConfigureAnswer { destination: None, commit: false, ack: serial };
        }
        let viewport: bool = self.monitors[index].viewport;
        let surface: bool = self.monitors[index].surface;
        let monitor = &mut self.monitors[index];
        monitor.logical_width = width;
        monitor.logical_height = height;
        monitor.configured = true;
        proof {
            assert(self@.monitors =~= before.monitors.update(
                index as int,
                configured_monitor(before.monitors[index as int], width, height),
            ));
        }
        self.configured = check_all_configured(&self.monitors);
        ConfigureAnswer {
            destination: if viewport {
                Some((width as i32, height as i32))
            } else {
                None
            },
            commit: surface,
            ack: serial,
        }
    }

    /// The compositor closed a layer surface; returns whether the main loop is stopped.
    pub fn closed(&self) -> (r: bool)
        ensures
            r == self@.main_loop_signal,
    {
        self.main_loop_signal
    }

    /// The compositor sent the number of its device.
    pub fn main_device(&mut self, device: Vec<u8>)
        ensures
            final(self)@ == (AppModel { dmabuf_main_device: Some(device@), ..old(self)@ }),
    {
        self.dmabuf_main_device = Some(device);
    }
}

/// The player counts as configured only while all monitors are; events of the
/// compositor keep it so.
pub proof fn law_configured_means_all(
    a: AppModel,
    index: usize,
    width: u32,
    height: u32,
    id: u32,
    event: OutputEvent,
)
    requires
        a.configured ==> all_configured(a.monitors),
    ensures
        after_configure(a, index, width, height).configured ==> all_configured(
            after_configure(a, index, width, height).monitors,
        ),
        ({
            let i = monitor_on(a.monitors, id);
            i < a.monitors.len() ==> (a.configured ==> all_configured(
                a.monitors.update(i as int, after_output_event(a.monitors[i as int], event)),
            ))
        }),
{
}

/// Once all monitors are configured, further configure events change nothing and
/// are only acknowledged.
pub proof fn law_configure_once(a: AppModel, index: usize, serial: u32, width: u32, height: u32)
    requires
        a.configured,
    ensures
        after_configure(a, index, width, height) == a,
        configure_answer(a, index, serial, width, height) == (ConfigureAnswer {
            destination: None,
            commit: false,
            ack: serial,
        }),
{
}

/// The configure event of the last monitor that lacks one completes the set.
pub proof fn law_last_configure_completes(a: AppModel, index: usize, width: u32, height: u32)
    requires
        index < a.monitors.len(),
        !a.configured,
        forall|i: int|
            0 <= i < a.monitors.len() && i != index ==> (#[trigger] a.monitors[i]).configured,
    ensures
        after_configure(a, index, width, height).configured,
{
}

/// An event of an output is for the first monitor on that output; where no monitor is on it,
/// it is for none.
pub proof fn law_event_finds_its_monitor(monitors: Seq<MonitorModel>, id: u32)
    ensures
        monitor_on(monitors, id) <= monitors.len(),
        forall|j: int|
            0 <= j < monitor_on(monitors, id) ==> (#[trigger] monitors[j]).output != Some(id),
        monitor_on(monitors, id) < monitors.len() ==> monitors[monitor_on(
            monitors,
            id,
        ) as int].output == Some(id),
    decreases monitors.len(),
{
    if monitors.len() > 0 && monitors[0].output != Some(id) {
        law_event_finds_its_monitor(monitors.skip(1), id);
        assert forall|j: int| 0 <= j < monitor_on(monitors, id) implies (
        #[trigger] monitors[j]).output != Some(id) by {
            if j > 0 {
                assert(monitors.skip(1)[j - 1] == monitors[j]);
            }
        }
    }
}

/// A mode sets the resolution of a monitor and a name its name; neither changes anything else
/// of it, and other events change nothing.
pub proof fn law_output_events_set_what_they_tell(
    m: MonitorModel,
    width: i32,
    height: i32,
    name: String,
)
    ensures
        ({
            let after = after_output_event(m, OutputEvent::Mode { width, height });
            &&& width >= 0 ==> after.physical_width == width
            &&& height >= 0 ==> after.physical_height == height
            &&& after.name == m.name && after.output == m.output
            &&& after.surface == m.surface && after.layer_surface == m.layer_surface
            &&& after.viewport == m.viewport && after.configured == m.configured
            &&& after.logical_width == m.logical_width && after.logical_height
                == m.logical_height
        }),
        ({
            let after = after_output_event(m, OutputEvent::Name { name });
            &&& after.name == Some(name@) && after.output == m.output
            &&& after.physical_width == m.physical_width && after.physical_height
                == m.physical_height
            &&& after.surface == m.surface && after.layer_surface == m.layer_surface
            &&& after.viewport == m.viewport && after.configured == m.configured
            &&& after.logical_width == m.logical_width && after.logical_height
                == m.logical_height
        }),
        after_output_event(m, OutputEvent::Other) == m,
{
}

/// A configure event of a monitor, before all are configured, gives that monitor the size that
/// it tells and leaves the others alone; the player is configured exactly where every monitor
/// is then.
pub proof fn law_configure_sets_its_monitor(
    a: AppModel,
    index: usize,
    width: u32,
    height: u32,
    j: int,
)
    requires
        index < a.monitors.len(),
        !a.configured,
        0 <= j < a.monitors.len(),
    ensures
        ({
            let after = after_configure(a, index, width, height);
            let m = after.monitors[index as int];
            let was = a.monitors[index as int];
            &&& after.monitors.len() == a.monitors.len()
            &&& m.configured && m.logical_width == width && m.logical_height == height
            &&& m.name == was.name && m.output == was.output && m.surface == was.surface
            &&& m.viewport == was.viewport && m.layer_surface == was.layer_surface
            &&& m.physical_width == was.physical_width && m.physical_height
                == was.physical_height
            &&& j != index ==> after.monitors[j] == a.monitors[j]
            &&& after.configured <==> forall|i: int|
                0 <= i < a.monitors.len() && i != index ==> (#[trigger] a.monitors[i]).configured
            &&& after.buffers == a.buffers && after.timing == a.timing && after.render_states
                == a.render_states
        }),
{
    let after = after_configure(a, index, width, height);
    if forall|i: int|
        0 <= i < a.monitors.len() && i != index ==> (#[trigger] a.monitors[i]).configured {
        assert forall|i: int| 0 <= i < after.monitors.len() implies (
        #[trigger] after.monitors[i]).configured by {
            if i != index {
                assert(a.monitors[i].configured);
            }
        }
    }
    if after.configured {
        assert forall|i: int| 0 <= i < a.monitors.len() && i != index implies (
        #[trigger] a.monitors[i]).configured by {
            assert(after.monitors[i].configured);
        }
    }
}

/// Every configure event is acknowledged by its own serial. One that counts gives the viewport
/// its size, where there is one, and commits the surface, where there is one.
pub proof fn law_configure_is_acknowledged(
    a: AppModel,
    index: usize,
    serial: u32,
    width: u32,
    height: u32,
)
    ensures
        ({
            let r = configure_answer(a, index, serial, width, height);
            let counts = index < a.monitors.len() && !a.configured;
            &&& r.ack == serial
            &&& r.commit <==> counts && a.monitors[index as int].surface
            &&& r.destination is Some <==> counts && a.monitors[index as int].viewport
            &&& r.destination matches Some((w, h)) ==> (width <= i32::MAX ==> w == width) && (height
                <= i32::MAX ==> h == height)
        }),
{
}

} // verus!
