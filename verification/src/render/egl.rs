//! Making an OpenGL surface for every monitor.
use vstd::prelude::*;

use crate::app::bootstrap::{FALLBACK_HEIGHT, FALLBACK_WIDTH};
use crate::app::state::{App, AppModel, Monitor, MonitorModel};
use crate::render::state::RenderState;

verus! {

pub const EGL_OPENGL_API: u32 = 0x30A2;

pub const EGL_NONE: i32 = 0x3038;

pub const EGL_SURFACE_TYPE: i32 = 0x3033;

pub const EGL_WINDOW_BIT: i32 = 0x0004;

pub const EGL_RENDERABLE_TYPE: i32 = 0x3040;

pub const EGL_OPENGL_BIT: i32 = 0x0008;

pub const EGL_RED_SIZE: i32 = 0x3024;

pub const EGL_GREEN_SIZE: i32 = 0x3023;

pub const EGL_BLUE_SIZE: i32 = 0x3022;

pub const EGL_ALPHA_SIZE: i32 = 0x3021;

pub const EGL_DEPTH_SIZE: i32 = 0x3025;

pub const EGL_CONTEXT_MAJOR_VERSION: i32 = 0x3098;

pub const EGL_CONTEXT_MINOR_VERSION: i32 = 0x30FB;

/// The attributes asked of a configuration: windows drawn with OpenGL in 32 bit colour,
/// and no depth buffer.
pub fn config_attributes() -> (r: Vec<i32>)
    ensures
        r@ == seq![
            EGL_SURFACE_TYPE,
            EGL_WINDOW_BIT,
            EGL_RENDERABLE_TYPE,
            EGL_OPENGL_BIT,
            EGL_RED_SIZE,
            8,
            EGL_GREEN_SIZE,
            8,
            EGL_BLUE_SIZE,
            8,
            EGL_ALPHA_SIZE,
            8,
            EGL_DEPTH_SIZE,
            0,
            EGL_NONE,
        ],
{
    vec![
        EGL_SURFACE_TYPE,
        EGL_WINDOW_BIT,
        EGL_RENDERABLE_TYPE,
        EGL_OPENGL_BIT,
        EGL_RED_SIZE,
        8,
        EGL_GREEN_SIZE,
        8,
        EGL_BLUE_SIZE,
        8,
        EGL_ALPHA_SIZE,
        8,
        EGL_DEPTH_SIZE,
        0,
        EGL_NONE,
    ]
}

/// The attributes asked of a context: version 3.3.
pub fn context_attributes() -> (r: Vec<i32>)
    ensures
        r@ == seq![EGL_CONTEXT_MAJOR_VERSION, 3, EGL_CONTEXT_MINOR_VERSION, 3, EGL_NONE],
{
    vec![EGL_CONTEXT_MAJOR_VERSION, 3, EGL_CONTEXT_MINOR_VERSION, 3, EGL_NONE]
}

pub open spec fn larger(a: u32, b: u32) -> u32 {
    if a < b {
        b
    } else {
        a
    }
}

/// The size of a window: that of the output, or else the size that the compositor gave,
/// but no less than the one to fall back to.
pub open spec fn size_of(m: MonitorModel) -> (u32, u32) {
    (
        if m.physical_width > 0 {
            m.physical_width
        } else {
            larger(m.logical_width, FALLBACK_WIDTH)
        },
        if m.physical_height > 0 {
            m.physical_height
        } else {
            larger(m.logical_height, FALLBACK_HEIGHT)
        },
    )
}

/// The surface of a window of that size; sizes beyond an `i32` wrap around.
pub open spec fn target_of(m: MonitorModel) -> RenderState {
    RenderState { width: size_of(m).0 as i32, height: size_of(m).1 as i32 }
}

fn window_of(monitor: &Monitor) -> (r: RenderState)
    ensures
        r == target_of(monitor@),
{
    let width: u32 = if monitor.physical_width > 0 {
        monitor.physical_width
    } else if monitor.logical_width < FALLBACK_WIDTH {
        FALLBACK_WIDTH
    } else {
        monitor.logical_width
    };
    let height: u32 = if monitor.physical_height > 0 {
        monitor.physical_height
    } else if monitor.logical_height < FALLBACK_HEIGHT {
        FALLBACK_HEIGHT
    } else {
        monitor.logical_height
    };
    RenderState { width: width as i32, height: height as i32 }
}

/// What to do next.
#[derive(Clone, Copy, Debug, PartialEq, Eq, Structural)]
pub enum GlAction {
    GetDisplay,
    Initialize,
    BindApi,
    ChooseConfig,
    /// Make a native window for this monitor's surface, of this size.
    CreateWindow { monitor: usize, width: i32, height: i32 },
    /// Make a surface for the window.
    CreateSurface,
    CreateContext,
    MakeCurrent,
    /// Do not wait for the vertical blank.
    DisableSwapInterval,
    LoadFunctions,
    /// Every monitor has its surface.
    Ready,
    /// Give up: destroy the window, surface and context that were made for this monitor,
    /// as far as they are marked.
    Fail { error: GlError, window: bool, surface: bool, context: bool },
}

#[derive(Clone, Copy, Debug, PartialEq, Eq, Structural)]
pub enum GlError {
    GetDisplay,
    Initialize,
    BindApi,
    ChooseConfig,
    NoSurface,
    CreateWindow,
    CreateSurface,
    CreateContext,
    MakeCurrent,
}

/// Where the set-up stands, that is, which action was given out.
#[derive(Clone, Copy, Debug, PartialEq, Eq, Structural)]
pub enum GlState {
    GettingDisplay,
    Initializing,
    BindingApi,
    ChoosingConfig,
    CreatingWindow(usize),
    CreatingSurface(usize),
    CreatingContext,
    MakingCurrent,
    DisablingSwapInterval,
    LoadingFunctions,
    Ready,
    Failed,
}

/// What the set-up does: where it stands then, the state of the player, and the next
/// action, if there is one.
pub type GlStep = (GlState, AppModel, Option<GlAction>);

/// The set-up turns to the monitor `i`, or is nearly done where there is none.
pub open spec fn turn_to(a: AppModel, i: int) -> GlStep {
    if i >= a.monitors.len() {
        (GlState::LoadingFunctions, a, Some(GlAction::LoadFunctions))
    } else if !a.monitors[i].surface {
        failed(a, GlError::NoSurface)
    } else {
        let t = target_of(a.monitors[i]);
        (
            GlState::CreatingWindow(i as usize),
            a,
            Some(
                GlAction::CreateWindow { monitor: i as usize, width: t.width, height: t.height },
            ),
        )
    }
}

/// The set-up failed with nothing to give up.
pub open spec fn failed(a: AppModel, error: GlError) -> GlStep {
    (
        GlState::Failed,
        a,
        Some(GlAction::Fail { error, window: false, surface: false, context: false }),
    )
}

/// The set-up goes on with an action, if the last one succeeded.
pub open spec fn on_success(
    a: AppModel,
    ok: bool,
    s: GlState,
    action: GlAction,
    error: GlError,
) -> GlStep {
    if ok {
        (s, a, Some(action))
    } else {
        failed(a, error)
    }
}

/// The state with the surface of the monitor `i` added.
pub open spec fn with_target(a: AppModel, i: int) -> AppModel {
    AppModel { render_states: a.render_states.push(target_of(a.monitors[i])), ..a }
}

/// The set-up after its last action succeeded or failed. The context is made with the
/// surface of the first monitor, and serves all others.
pub open spec fn next(s: GlState, a: AppModel, ok: bool) -> GlStep {
    match s {
        GlState::GettingDisplay => on_success(
            a,
            ok,
            GlState::Initializing,
            GlAction::Initialize,
            GlError::GetDisplay,
        ),
        GlState::Initializing => on_success(
            a,
            ok,
            GlState::BindingApi,
            GlAction::BindApi,
            GlError::Initialize,
        ),
        GlState::BindingApi => on_success(
            a,
            ok,
            GlState::ChoosingConfig,
            GlAction::ChooseConfig,
            GlError::BindApi,
        ),
        GlState::ChoosingConfig => if ok {
            turn_to(a, 0)
        } else {
            failed(a, GlError::ChooseConfig)
        },
        GlState::CreatingWindow(i) => on_success(
            a,
            ok,
            GlState::CreatingSurface(i),
            GlAction::CreateSurface,
            GlError::CreateWindow,
        ),
        GlState::CreatingSurface(i) => if !ok {
            (
                GlState::Failed,
                a,
                Some(
                    GlAction::Fail {
                        error: GlError::CreateSurface,
                        window: true,
                        surface: false,
                        context: false,
                    },
                ),
            )
        } else if i == 0 {
            (GlState::CreatingContext, a, Some(GlAction::CreateContext))
        } else {
            turn_to(with_target(a, i as int), i + 1)
        },
        GlState::CreatingContext => on_success(
            a,
            ok,
            GlState::MakingCurrent,
            GlAction::MakeCurrent,
            GlError::CreateContext,
        ),
        GlState::MakingCurrent => if ok {
            (GlState::DisablingSwapInterval, a, Some(GlAction::DisableSwapInterval))
        } else {
            (
                GlState::Failed,
                a,
                Some(
                    GlAction::Fail {
                        error: GlError::MakeCurrent,
                        window: true,
                        surface: true,
                        context: true,
                    },
                ),
            )
        },
        GlState::DisablingSwapInterval => turn_to(with_target(a, 0), 1),
        GlState::LoadingFunctions => (GlState::Ready, a, Some(GlAction::Ready)),
        GlState::Ready => (s, a, None),
        GlState::Failed => (s, a, None),
    }
}

/// The monitor whose surface is being made, if any.
pub open spec fn current(s: GlState) -> Option<int> {
    match s {
        GlState::CreatingWindow(i) => Some(i as int),
        GlState::CreatingSurface(i) => Some(i as int),
        GlState::CreatingContext => Some(0),
        GlState::MakingCurrent => Some(0),
        GlState::DisablingSwapInterval => Some(0),
        _ => None,
    }
}

/// The monitor that is worked on is one of the player's.
pub open spec fn in_bounds(s: GlState, a: AppModel) -> bool {
    current(s) matches Some(i) ==> i < a.monitors.len()
}

fn fail(error: GlError) -> (r: (GlState, Option<GlAction>))
    ensures
        forall|a: AppModel| (r.0, a, r.1) == failed(a, error),
        r.0 is Failed,
{
    (
        GlState::Failed,
        Some(GlAction::Fail { error, window: false, surface: false, context: false }),
    )
}

fn turn(app: &App, i: usize) -> (r: (GlState, Option<GlAction>))
    ensures
        (r.0, app@, r.1) == turn_to(app@, i as int),
        in_bounds(r.0, app@),
{
    if i >= app.monitors.len() {
        (GlState::LoadingFunctions, Some(GlAction::LoadFunctions))
    } else {
        assert(app@.monitors[i as int] == app.monitors@[i as int]@);
        if !app.monitors[i].surface {
            fail(GlError::NoSurface)
        } else {
            let t = window_of(&app.monitors[i]);
            (
                GlState::CreatingWindow(i),
                Some(GlAction::CreateWindow { monitor: i, width: t.width, height: t.height }),
            )
        }
    }
}

fn add_target(app: &mut App, i: usize)
    requires
        i < old(app)@.monitors.len(),
    ensures
        final(app)@ == with_target(old(app)@, i as int),
{
    assert(app@.monitors[i as int] == app.monitors@[i as int]@);
    let t = window_of(&app.monitors[i]);
    app.render_states.push(t);
}

/// The set-up of OpenGL, in progress.
pub struct GlInit {
    state: GlState,
}

impl GlInit {
    pub closed spec fn state(self) -> GlState {
        self.state
    }

    /// A set-up that starts.
    pub fn start() -> (r: (GlInit, GlAction))
        ensures
            r.0.state() == GlState::GettingDisplay,
            r.1 == GlAction::GetDisplay,
    {
        (GlInit { state: GlState::GettingDisplay }, GlAction::GetDisplay)
    }

    /// Takes note of whether the last action succeeded and says what comes next; `None`
    /// when the set-up is over. Choosing a configuration succeeds where one was found.
    pub fn initialize_gl_egl(&mut self, app: &mut App, ok: bool) -> (r: Option<GlAction>)
        requires
            in_bounds(old(self).state(), old(app)@),
        ensures
            in_bounds(final(self).state(), final(app)@),
            (final(self).state(), final(app)@, r) == next(old(self).state(), old(app)@, ok),
    {
        let (state, action): (GlState, Option<GlAction>) = match self.state {
            GlState::GettingDisplay => if ok {
                (GlState::Initializing, Some(GlAction::Initialize))
            } else {
                fail(GlError::GetDisplay)
            },
            GlState::Initializing => if ok {
                (GlState::BindingApi, Some(GlAction::BindApi))
            } else {
                fail(GlError::Initialize)
            },
            GlState::BindingApi => if ok {
                (GlState::ChoosingConfig, Some(GlAction::ChooseConfig))
            } else {
                fail(GlError::BindApi)
            },
            GlState::ChoosingConfig => if ok {
                turn(app, 0)
            } else {
                fail(GlError::ChooseConfig)
            },
            GlState::CreatingWindow(i) => if ok {
                (GlState::CreatingSurface(i), Some(GlAction::CreateSurface))
            } else {
                fail(GlError::CreateWindow)
            },
            GlState::CreatingSurface(i) => if !ok {
                (
                    GlState::Failed,
                    Some(
                        GlAction::Fail {
                            error: GlError::CreateSurface,
                            window: true,
                            surface: false,
                            context: false,
                        },
                    ),
                )
            } else if i == 0 {
                (GlState::CreatingContext, Some(GlAction::CreateContext))
            } else {
                assert(app@.monitors.len() == app.monitors.len());
                add_target(app, i);
                turn(app, i + 1)
            },
            GlState::CreatingContext => if ok {
                (GlState::MakingCurrent, Some(GlAction::MakeCurrent))
            } else {
                fail(GlError::CreateContext)
            },
            GlState::MakingCurrent => if ok {
                (GlState::DisablingSwapInterval, Some(GlAction::DisableSwapInterval))
            } else {
                (
                    GlState::Failed,
                    Some(
                        GlAction::Fail {
                            error: GlError::MakeCurrent,
                            window: true,
                            surface: true,
                            context: true,
                        },
                    ),
                )
            },
            GlState::DisablingSwapInterval => {
                add_target(app, 0);
                turn(app, 1)
            },
            GlState::LoadingFunctions => (GlState::Ready, Some(GlAction::Ready)),
            GlState::Ready => (GlState::Ready, None),
            GlState::Failed => (GlState::Failed, None),
        };
        self.state = state;
        action
    }
}

/// What is said of a set-up that failed.
pub open spec fn failure_of(e: GlError) -> Seq<char> {
    match e {
        GlError::GetDisplay => "eglGetDisplay failed"@,
        GlError::Initialize => "eglInitialize failed"@,
        GlError::BindApi => "eglBindAPI failed"@,
        GlError::ChooseConfig => "eglChooseConfig failed or no valid configs found"@,
        GlError::NoSurface => "Could not obtain the native pointer of the wl_surface"@,
        GlError::CreateWindow => "wl_egl_window_create failed"@,
        GlError::CreateSurface => "eglCreateWindowSurface failed"@,
        GlError::CreateContext => "eglCreateContext failed"@,
        GlError::MakeCurrent => "eglMakeCurrent failed"@,
    }
}

/// What to say of a set-up that failed.
pub fn failure_text(e: GlError) -> (r: &'static str)
    ensures
        r@ == failure_of(e),
{
    match e {
        GlError::GetDisplay => "eglGetDisplay failed",
        GlError::Initialize => "eglInitialize failed",
        GlError::BindApi => "eglBindAPI failed",
        GlError::ChooseConfig => "eglChooseConfig failed or no valid configs found",
        GlError::NoSurface => "Could not obtain the native pointer of the wl_surface",
        GlError::CreateWindow => "wl_egl_window_create failed",
        GlError::CreateSurface => "eglCreateWindowSurface failed",
        GlError::CreateContext => "eglCreateContext failed",
        GlError::MakeCurrent => "eglMakeCurrent failed",
    }
}

/// Where the set-up of a player stands after a run of outcomes.
pub open spec fn run(a: AppModel, outcomes: Seq<bool>) -> (GlState, AppModel)
    decreases outcomes.len(),
{
    if outcomes.len() == 0 {
        (GlState::GettingDisplay, a)
    } else {
        let before = run(a, outcomes.drop_last());
        let step = next(before.0, before.1, outcomes.last());
        (step.0, step.1)
    }
}

/// The number of monitors whose surface was made before the current one.
spec fn done(s: GlState, a: AppModel) -> int {
    match s {
        GlState::GettingDisplay | GlState::Initializing | GlState::BindingApi
        | GlState::ChoosingConfig => 0,
        GlState::LoadingFunctions | GlState::Ready | GlState::Failed => a.monitors.len() as int,
        _ => match current(s) {
            Some(i) => i,
            None => 0,
        },
    }
}

proof fn lemma_targets(a: AppModel, outcomes: Seq<bool>)
    requires
        a.monitors.len() <= usize::MAX,
    ensures
        ({
            let (s, now) = run(a, outcomes);
            &&& now == (AppModel { render_states: now.render_states, ..a })
            &&& in_bounds(s, now)
            &&& !(s is Failed) ==> now.render_states == a.render_states + a.monitors.take(
                done(s, a),
            ).map_values(|m: MonitorModel| target_of(m))
        }),
    decreases outcomes.len(),
{
    let f = |m: MonitorModel| target_of(m);
    if outcomes.len() == 0 {
        assert(a.render_states + a.monitors.take(0).map_values(f) =~= a.render_states);
    } else {
        lemma_targets(a, outcomes.drop_last());
        let (s, before) = run(a, outcomes.drop_last());
        if let Some(i) = current(s) {
            assert(a.monitors.take(i + 1).map_values(f) =~= a.monitors.take(i).map_values(f).push(
                target_of(a.monitors[i]),
            ));
            assert(a.render_states + a.monitors.take(i + 1).map_values(f) =~= (a.render_states
                + a.monitors.take(i).map_values(f)).push(target_of(a.monitors[i])));
        }
    }
}

/// A set-up that is ready has added one surface for every monitor, in their order and of
/// their sizes, and changed nothing else.
pub proof fn law_ready_means_a_surface_each(a: AppModel, outcomes: Seq<bool>)
    requires
        a.monitors.len() <= usize::MAX,
        run(a, outcomes).0 is Ready,
    ensures
        run(a, outcomes).1 == (AppModel {
            render_states: a.render_states + a.monitors.map_values(
                |m: MonitorModel| target_of(m),
            ),
            ..a
        }),
{
    lemma_targets(a, outcomes);
    assert(a.monitors.take(a.monitors.len() as int) =~= a.monitors);
}

/// A window is as large as its output; where the size of the output is not known, as large as
/// the compositor says, but at least 1920 by 1080.
pub proof fn law_windows_fill_their_outputs(m: MonitorModel)
    requires
        m.physical_width <= i32::MAX,
        m.physical_height <= i32::MAX,
        m.logical_width <= i32::MAX,
        m.logical_height <= i32::MAX,
    ensures
        ({
            let t = target_of(m);
            &&& m.physical_width > 0 ==> t.width == m.physical_width
            &&& m.physical_height > 0 ==> t.height == m.physical_height
            &&& m.physical_width == 0 ==> t.width >= 1920 && t.width >= m.logical_width && (t.width
                == 1920 || t.width == m.logical_width)
            &&& m.physical_height == 0 ==> t.height >= 1080 && t.height >= m.logical_height && (
            t.height == 1080 || t.height == m.logical_height)
        }),
{
}

/// The set-up goes from the display to a configuration, then makes a window and a surface for
/// each monitor in turn. The context is made once, with the surface of the first, and made
/// current before any other window is made.
pub proof fn law_set_up_goes_step_by_step(a: AppModel, i: usize)
    requires
        i < a.monitors.len(),
        a.monitors.len() <= usize::MAX,
    ensures
        next(GlState::GettingDisplay, a, true) == (
            GlState::Initializing,
            a,
            Some(GlAction::Initialize),
        ),
        next(GlState::Initializing, a, true) == (GlState::BindingApi, a, Some(GlAction::BindApi)),
        next(GlState::BindingApi, a, true) == (
            GlState::ChoosingConfig,
            a,
            Some(GlAction::ChooseConfig),
        ),
        next(GlState::CreatingWindow(i), a, true) == (
            GlState::CreatingSurface(i),
            a,
            Some(GlAction::CreateSurface),
        ),
        next(GlState::CreatingSurface(0), a, true) == (
            GlState::CreatingContext,
            a,
            Some(GlAction::CreateContext),
        ),
        next(GlState::CreatingContext, a, true) == (
            GlState::MakingCurrent,
            a,
            Some(GlAction::MakeCurrent),
        ),
        next(GlState::MakingCurrent, a, true) == (
            GlState::DisablingSwapInterval,
            a,
            Some(GlAction::DisableSwapInterval),
        ),
        next(GlState::LoadingFunctions, a, true) == (GlState::Ready, a, Some(GlAction::Ready)),
        i > 0 ==> !(next(GlState::CreatingSurface(i), a, true).2 matches Some(act) && act
            == GlAction::CreateContext),
{
}

/// The window that is made next is that of the next monitor, in its size; a monitor without a
/// surface ends the set-up, and after the last one the functions are loaded.
pub proof fn law_monitors_come_in_turn(a: AppModel, i: usize, ok: bool)
    requires
        a.monitors.len() <= usize::MAX,
        i < a.monitors.len(),
    ensures
        ({
            let first = next(GlState::ChoosingConfig, a, true);
            &&& a.monitors[0].surface ==> first.2 == Some(
                GlAction::CreateWindow {
                    monitor: 0,
                    width: target_of(a.monitors[0]).width,
                    height: target_of(a.monitors[0]).height,
                },
            )
            &&& !a.monitors[0].surface ==> (first.2 matches Some(GlAction::Fail { error, .. })
                && error == GlError::NoSurface)
        }),
        ({
            let then = if i == 0 {
                next(GlState::DisablingSwapInterval, a, ok)
            } else {
                next(GlState::CreatingSurface(i), a, true)
            };
            &&& then.1.render_states.len() == a.render_states.len() + 1
            &&& then.1.render_states.last().width == target_of(a.monitors[i as int]).width
            &&& then.1.render_states.last().height == target_of(a.monitors[i as int]).height
            &&& i + 1 == a.monitors.len() ==> then.2 == Some(GlAction::LoadFunctions)
            &&& i + 1 < a.monitors.len() && a.monitors[i + 1].surface ==> then.2 == Some(
                GlAction::CreateWindow {
                    monitor: (i + 1) as usize,
                    width: target_of(a.monitors[i + 1]).width,
                    height: target_of(a.monitors[i + 1]).height,
                },
            )
            &&& i + 1 < a.monitors.len() && !a.monitors[i + 1].surface ==> (then.2 matches Some(
                GlAction::Fail { error, .. },
            ) && error == GlError::NoSurface)
        }),
{
}

/// Every step that fails ends the set-up with an error of its own, and gives up what was made
/// for that monitor and is not yet kept: the window where the surface fails, and window,
/// surface and context where the context cannot be made current.
pub proof fn law_each_failure_has_its_error(s: GlState, a: AppModel)
    ensures
        ({
            let failed: Option<GlError> = match s {
                GlState::GettingDisplay => Some(GlError::GetDisplay),
                GlState::Initializing => Some(GlError::Initialize),
                GlState::BindingApi => Some(GlError::BindApi),
                GlState::ChoosingConfig => Some(GlError::ChooseConfig),
                GlState::CreatingWindow(_) => Some(GlError::CreateWindow),
                GlState::CreatingSurface(_) => Some(GlError::CreateSurface),
                GlState::CreatingContext => Some(GlError::CreateContext),
                GlState::MakingCurrent => Some(GlError::MakeCurrent),
                _ => None,
            };
            failed matches Some(told) ==> {
                &&& next(s, a, false).0 == GlState::Failed
                &&& next(s, a, false).1 == a
                &&& next(s, a, false).2 == Some(
                    GlAction::Fail {
                        error: told,
                        window: told == GlError::CreateSurface || told == GlError::MakeCurrent,
                        surface: told == GlError::MakeCurrent,
                        context: told == GlError::MakeCurrent,
                    },
                )
            }
        }),
{
}

/// Once every monitor has its surface the functions are loaded, and then all is ready; a
/// monitor without a surface to draw on ends the set-up.
pub proof fn law_functions_are_loaded_last(a: AppModel, i: int)
    ensures
        i >= a.monitors.len() ==> turn_to(a, i) == (
            GlState::LoadingFunctions,
            a,
            Some(GlAction::LoadFunctions),
        ),
        0 <= i < a.monitors.len() && !a.monitors[i].surface ==> turn_to(a, i).0 == GlState::Failed,
        next(GlState::LoadingFunctions, a, true).0 == GlState::Ready,
        next(GlState::LoadingFunctions, a, true).1 == a,
{
}

/// What is said of a set-up that failed names the call that did.
pub proof fn law_failed_set_up_is_told()
    ensures
        failure_of(GlError::GetDisplay) == "eglGetDisplay failed"@,
        failure_of(GlError::Initialize) == "eglInitialize failed"@,
        failure_of(GlError::BindApi) == "eglBindAPI failed"@,
        failure_of(GlError::ChooseConfig) == "eglChooseConfig failed or no valid configs found"@,
        failure_of(GlError::NoSurface) == "Could not obtain the native pointer of the wl_surface"@,
        failure_of(GlError::CreateWindow) == "wl_egl_window_create failed"@,
        failure_of(GlError::CreateSurface) == "eglCreateWindowSurface failed"@,
        failure_of(GlError::CreateContext) == "eglCreateContext failed"@,
        failure_of(GlError::MakeCurrent) == "eglMakeCurrent failed"@,
{
}

/// The numbers by which EGL knows what is asked of it.
pub proof fn law_numbers_are_those_of_egl()
    ensures
        EGL_OPENGL_API == 0x30A2,
        EGL_NONE == 0x3038,
        EGL_SURFACE_TYPE == 0x3033 && EGL_WINDOW_BIT == 4,
        EGL_RENDERABLE_TYPE == 0x3040 && EGL_OPENGL_BIT == 8,
        EGL_ALPHA_SIZE == 0x3021,
        EGL_BLUE_SIZE == 0x3022,
        EGL_GREEN_SIZE == 0x3023,
        EGL_RED_SIZE == 0x3024,
        EGL_DEPTH_SIZE == 0x3025,
        EGL_CONTEXT_MAJOR_VERSION == 0x3098,
        EGL_CONTEXT_MINOR_VERSION == 0x30FB,
{
}

} // verus!
