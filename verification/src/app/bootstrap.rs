//! Setting the player up: which pipeline runs, in what order its parts are made, on which
//! outputs it shows, and what ends the attempt.
use vstd::prelude::*;

use crate::app::state;
use crate::app::state::{App, AppModel, Monitor, MonitorModel};
use crate::cli::args::Args;
use crate::drm_node;
use crate::drm_node::{DrmTree, NodeError};
use crate::text;
use crate::wayland::surfaces;
use crate::wayland::surfaces::LayerSettings;

verus! {

/// The width and height taken for an output that tells none.
pub const FALLBACK_WIDTH: u32 = 1920;

pub const FALLBACK_HEIGHT: u32 = 1080;

/// The highest version of the output protocol that is understood.
pub const OUTPUT_VERSION: u32 = 4;

/// The seconds to wait for the compositor's first events.
pub const CONFIGURE_SECONDS: u64 = 2;

/// How frames get to the screen.
#[derive(Clone, Copy, Debug, PartialEq, Eq, Structural)]
pub enum Pipeline {
    /// Decoded on the GPU and handed to the compositor as DMA-BUFs.
    Drm,
    /// Decoded in memory and drawn with OpenGL.
    EglGl,
}

/// One step of setting up.
#[derive(Clone, Copy, Debug, PartialEq, Eq, Structural)]
pub enum BootStep {
    FindVideo,
    ResolveVideo,
    Connect,
    InitRegistry,
    BindCompositor,
    BindLayerShell,
    BindViewporter,
    BindDmabuf,
    BindOutputs,
    Roundtrip,
    FilterOutputs,
    CreateSurfaces,
    /// Wait for the compositor's first events.
    Wait,
    /// Test that every surface is configured.
    Configured,
    /// Test that the compositor told its device.
    MainDevice,
    DestroyFeedback,
    ResolveRenderNode,
    InitGl,
    MakeWakeup,
    MakeErrorWakeup,
    StartDecoder,
}

/// The steps of a pipeline, in order.
pub open spec fn steps(p: Pipeline) -> Seq<BootStep> {
    match p {
        Pipeline::EglGl => seq![
            BootStep::FindVideo,
            BootStep::ResolveVideo,
            BootStep::Connect,
            BootStep::InitRegistry,
            BootStep::BindCompositor,
            BootStep::BindLayerShell,
            BootStep::BindViewporter,
            BootStep::BindOutputs,
            BootStep::Roundtrip,
            BootStep::FilterOutputs,
            BootStep::CreateSurfaces,
            BootStep::Wait,
            BootStep::Configured,
            BootStep::InitGl,
            BootStep::MakeWakeup,
            BootStep::MakeErrorWakeup,
            BootStep::StartDecoder,
        ],
        Pipeline::Drm => seq![
            BootStep::FindVideo,
            BootStep::Connect,
            BootStep::InitRegistry,
            BootStep::BindCompositor,
            BootStep::BindLayerShell,
            BootStep::BindViewporter,
            BootStep::BindDmabuf,
            BootStep::BindOutputs,
            BootStep::Roundtrip,
            BootStep::FilterOutputs,
            BootStep::CreateSurfaces,
            BootStep::Wait,
            BootStep::Configured,
            BootStep::MainDevice,
            BootStep::DestroyFeedback,
            BootStep::ResolveRenderNode,
            BootStep::MakeWakeup,
            BootStep::MakeErrorWakeup,
            BootStep::StartDecoder,
        ],
    }
}

/// What to do next.
#[derive(Clone, Copy, Debug, PartialEq, Eq, Structural)]
pub enum BootAction {
    Perform(BootStep),
    /// Start over without hardware decoding, with this step.
    FallBack(BootStep),
    /// Everything is set up.
    Ready,
    /// The step failed for good. The feedback object, where there is one to give up,
    /// is destroyed first.
    Fail { step: BootStep, destroy_feedback: bool },
}

/// The player cannot be set up as asked.
#[derive(Clone, Copy, Debug, PartialEq, Eq, Structural)]
pub enum BootError {
    /// OpenGL is disabled and hardware decoding is not enabled.
    NoRenderer,
}

/// Setting up, in progress.
pub struct Boot {
    pipeline: Pipeline,
    use_hwdec: bool,
    use_gl: bool,
    at: usize,
    node: Option<String>,
}

/// The contents of a [`Boot`].
pub struct BootModel {
    pub pipeline: Pipeline,
    pub use_hwdec: bool,
    /// Whether OpenGL may take over.
    pub use_gl: bool,
    /// The number of steps that are done.
    pub at: nat,
    /// The render node of the compositor's device, once it is resolved.
    pub node: Option<Seq<char>>,
}

/// How a step went.
pub enum Outcome {
    /// Whether the step succeeded.
    Went(bool),
    /// The render node that was found, of the step that resolves it.
    Node(Option<Seq<char>>),
}

pub open spec fn succeeded(o: Outcome) -> bool {
    match o {
        Outcome::Went(ok) => ok,
        Outcome::Node(found) => found is Some,
    }
}

impl View for Boot {
    type V = BootModel;

    closed spec fn view(&self) -> BootModel {
        BootModel {
            pipeline: self.pipeline,
            use_hwdec: self.use_hwdec,
            use_gl: self.use_gl,
            at: self.at as nat,
            node: drm_node::text_view(self.node),
        }
    }
}

/// What the decoder is started with.
pub struct DecoderStart {
    /// Whether to decode on the GPU.
    pub use_hwdec: bool,
    /// The node of the GPU, where it is known.
    pub render_node: Option<String>,
}

/// The pipeline for a command line. Hardware decoding takes the DMA-BUF one.
pub open spec fn pipeline_for(use_vaapi: bool, use_gl: bool) -> Option<Pipeline> {
    if use_vaapi {
        Some(Pipeline::Drm)
    } else if use_gl {
        Some(Pipeline::EglGl)
    } else {
        None
    }
}

/// Whether the player can do without what a step provides.
pub open spec fn is_optional(s: BootStep) -> bool {
    s == BootStep::BindViewporter
}

/// Setting up after the current step, with the node that it found.
pub open spec fn with_node(b: BootModel, o: Outcome) -> BootModel {
    match o {
        Outcome::Went(_) => b,
        Outcome::Node(found) => BootModel { node: found, ..b },
    }
}

/// Whether the outcome is one of the current step: only one step finds a node.
pub open spec fn answers(b: BootModel, o: Outcome) -> bool {
    &&& b.at < steps(b.pipeline).len()
    &&& steps(b.pipeline)[b.at as int] == BootStep::ResolveRenderNode <==> o is Node
}

/// Setting up after the current step succeeded or failed.
pub open spec fn next(before: BootModel, o: Outcome) -> (BootModel, BootAction) {
    let b = with_node(before, o);
    let step = steps(b.pipeline)[b.at as int];
    if succeeded(o) || is_optional(step) {
        let after = BootModel { at: b.at + 1, ..b };
        if after.at == steps(b.pipeline).len() {
            (after, BootAction::Ready)
        } else {
            (after, BootAction::Perform(steps(b.pipeline)[after.at as int]))
        }
    } else if step == BootStep::BindDmabuf && b.use_gl {
        (
            BootModel { pipeline: Pipeline::EglGl, use_hwdec: false, at: 0, node: None, ..b },
            BootAction::FallBack(steps(Pipeline::EglGl)[0]),
        )
    } else {
        (
            b,
            BootAction::Fail {
                step,
                destroy_feedback: b.pipeline == Pipeline::Drm && (step == BootStep::Configured
                    || step == BootStep::MainDevice),
            },
        )
    }
}

fn steps_of(p: Pipeline) -> (r: Vec<BootStep>)
    ensures
        r@ == steps(p),
{
    match p {
        Pipeline::EglGl => vec![
            BootStep::FindVideo,
            BootStep::ResolveVideo,
            BootStep::Connect,
            BootStep::InitRegistry,
            BootStep::BindCompositor,
            BootStep::BindLayerShell,
            BootStep::BindViewporter,
            BootStep::BindOutputs,
            BootStep::Roundtrip,
            BootStep::FilterOutputs,
            BootStep::CreateSurfaces,
            BootStep::Wait,
            BootStep::Configured,
            BootStep::InitGl,
            BootStep::MakeWakeup,
            BootStep::MakeErrorWakeup,
            BootStep::StartDecoder,
        ],
        Pipeline::Drm => vec![
            BootStep::FindVideo,
            BootStep::Connect,
            BootStep::InitRegistry,
            BootStep::BindCompositor,
            BootStep::BindLayerShell,
            BootStep::BindViewporter,
            BootStep::BindDmabuf,
            BootStep::BindOutputs,
            BootStep::Roundtrip,
            BootStep::FilterOutputs,
            BootStep::CreateSurfaces,
            BootStep::Wait,
            BootStep::Configured,
            BootStep::MainDevice,
            BootStep::DestroyFeedback,
            BootStep::ResolveRenderNode,
            BootStep::MakeWakeup,
            BootStep::MakeErrorWakeup,
            BootStep::StartDecoder,
        ],
    }
}

/// Chooses the pipeline that a command line asks for and starts to set it up.
pub fn bootstrap(args: &Args) -> (r: Result<Boot, BootError>)
    ensures
        match pipeline_for(args@.use_vaapi, args@.use_gl) {
            None => r == Err::<Boot, BootError>(BootError::NoRenderer),
            Some(p) => r matches Ok(b) && b@ == (BootModel {
                pipeline: p,
                use_hwdec: args@.use_vaapi,
                use_gl: args@.use_gl,
                at: 0,
                node: None,
            }),
        },
{
    if args.use_vaapi {
        Ok(bootstrap_drm(args.use_gl))
    } else if args.use_gl {
        Ok(bootstrap_gl_egl())
    } else {
        Err(BootError::NoRenderer)
    }
}

/// Starts to set up drawing with OpenGL.
pub fn bootstrap_gl_egl() -> (r: Boot)
    ensures
        r@ == (BootModel {
            pipeline: Pipeline::EglGl,
            use_hwdec: false,
            use_gl: true,
            at: 0,
            node: None,
        }),
{
    Boot { pipeline: Pipeline::EglGl, use_hwdec: false, use_gl: true, at: 0, node: None }
}

/// Starts to set up hardware decoding; `use_gl` says whether OpenGL may take over.
pub fn bootstrap_drm(use_gl: bool) -> (r: Boot)
    ensures
        r@ == (BootModel { pipeline: Pipeline::Drm, use_hwdec: true, use_gl, at: 0, node: None }),
{
    Boot { pipeline: Pipeline::Drm, use_hwdec: true, use_gl, at: 0, node: None }
}

impl Boot {
    /// The pipeline that is set up, and whether frames are decoded on the GPU.
    pub fn pipeline(&self) -> (r: (Pipeline, bool))
        ensures
            r == (self@.pipeline, self@.use_hwdec),
    {
        (self.pipeline, self.use_hwdec)
    }

    /// The step to perform now; `None` when everything is set up.
    pub fn current(&self) -> (r: Option<BootStep>)
        ensures
            r == if self@.at < steps(self@.pipeline).len() {
                Some(steps(self@.pipeline)[self@.at as int])
            } else {
                None
            },
    {
        let all = steps_of(self.pipeline);
        if self.at < all.len() {
            Some(all[self.at])
        } else {
            None
        }
    }

    /// What the decoder is started with; `None` where that is not the current step.
    pub fn decoder_start(&self) -> (r: Option<DecoderStart>)
        ensures
            self@.at < steps(self@.pipeline).len() && steps(self@.pipeline)[self@.at as int]
                == BootStep::StartDecoder ==> r is Some,
            r matches Some(d) ==> {
                &&& self@.at < steps(self@.pipeline).len()
                &&& steps(self@.pipeline)[self@.at as int] == BootStep::StartDecoder
                &&& d.use_hwdec == self@.use_hwdec
                &&& drm_node::text_view(d.render_node) == self@.node
            },
    {
        match self.current() {
            Some(BootStep::StartDecoder) => {
                let render_node: Option<String> = match &self.node {
                    Some(path) => Some(path.as_str().to_string()),
                    None => None,
                };
                Some(DecoderStart { use_hwdec: self.use_hwdec, render_node })
            },
            _ => None,
        }
    }

    /// Takes note of the render node that was found, if any, and says what comes next.
    pub fn take_node(&mut self, found: Option<String>) -> (r: BootAction)
        requires
            answers(old(self)@, Outcome::Node(drm_node::text_view(found))),
        ensures
            (final(self)@, r) == next(old(self)@, Outcome::Node(drm_node::text_view(found))),
    {
        let ok: bool = found.is_some();
        self.node = found;
        self.step_on(ok)
    }

    /// Resolves the device that the compositor told to its render node, takes note of it
    /// and says what comes next; the error where there is none.
    pub fn resolve_render_node(&mut self, app: &App, tree: &DrmTree) -> (r: (
        BootAction,
        Option<NodeError>,
    ))
        requires
            old(self)@.at < steps(old(self)@.pipeline).len(),
            steps(old(self)@.pipeline)[old(self)@.at as int] == BootStep::ResolveRenderNode,
            app@.dmabuf_main_device matches Some(device) && drm_node::device_fits(*tree, device),
        ensures
            match r.1 {
                None => final(self)@.node matches Some(path) && drm_node::main_device_resolves(
                    *tree,
                    app@.dmabuf_main_device->0,
                    Ok(path),
                ),
                Some(e) => final(self)@.node is None && drm_node::main_device_resolves(
                    *tree,
                    app@.dmabuf_main_device->0,
                    Err(e@),
                ),
            },
            (final(self)@, r.0) == next(old(self)@, Outcome::Node(final(self)@.node)),
    {
        let found = match &app.dmabuf_main_device {
            Some(device) => drm_node::render_node_from_main_device(tree, device.as_slice()),
            None => Err(NodeError::Empty),
        };
        match found {
            Ok(path) => (self.take_node(Some(path)), None),
            Err(e) => (self.take_node(None), Some(e)),
        }
    }

    /// Takes note of how the current step went and says what comes next. The node that is
    /// resolved is taken note of by [`take_node`](Self::take_node).
    pub fn advance(&mut self, ok: bool) -> (r: BootAction)
        requires
            answers(old(self)@, Outcome::Went(ok)),
        ensures
            (final(self)@, r) == next(old(self)@, Outcome::Went(ok)),
    {
        self.step_on(ok)
    }

    fn step_on(&mut self, ok: bool) -> (r: BootAction)
        requires
            old(self)@.at < steps(old(self)@.pipeline).len(),
        ensures
            (final(self)@, r) == next(old(self)@, Outcome::Went(ok)),
    {
        let all = steps_of(self.pipeline);
        let step = all[self.at];
        if ok || step == BootStep::BindViewporter {
            self.at = self.at + 1;
            if self.at == all.len() {
                BootAction::Ready
            } else {
                BootAction::Perform(all[self.at])
            }
        } else if step == BootStep::BindDmabuf && self.use_gl {
            self.pipeline = Pipeline::EglGl;
            self.use_hwdec = false;
            self.at = 0;
            self.node = None;
            BootAction::FallBack(BootStep::FindVideo)
        } else {
            let drm = match self.pipeline {
                Pipeline::Drm => true,
                Pipeline::EglGl => false,
            };
            BootAction::Fail {
                step,
                destroy_feedback: drm && (step == BootStep::Configured || step
                    == BootStep::MainDevice),
            }
        }
    }
}

/// What is said of a step that failed, for a given video, before what is known of the cause;
/// `None` where the cause says it all.
pub open spec fn failure_of(step: BootStep, video: Seq<char>) -> Option<Seq<char>> {
    match step {
        BootStep::FindVideo => Some("Video file does not exist: "@ + video),
        BootStep::ResolveVideo => Some("Error resolving video path"@),
        BootStep::Connect => Some("Could not connect to Wayland server, is WAYLAND_DISPLAY set?"@),
        BootStep::InitRegistry => Some("Error initializing Wayland registry"@),
        BootStep::BindCompositor => Some("Compositor does not support wl_compositor"@),
        BootStep::BindLayerShell => Some("zwlr_layer_shell_v1 not available"@),
        BootStep::BindViewporter => Some("wl_viewporter not available, fallback to logical size for EGL"@),
        BootStep::BindDmabuf => Some("Compositor does not support zwp_linux_dmabuf_v1 v4 (required for drm pipeline)"@),
        BootStep::Roundtrip => Some("Error in initial roundtrip"@),
        BootStep::Configured => Some("Compositor did not send zwl_layer_surface_v1.configure within waiting time."@),
        BootStep::MainDevice => Some("Compositor did not send zwp_linux_dmabuf_feedback_v1.main_device within waiting time."@),
        BootStep::ResolveRenderNode => Some("Failed to resolve compositor render node"@),
        BootStep::MakeWakeup => Some("Failed to create decoder wakeup ping"@),
        BootStep::MakeErrorWakeup => Some("Failed to create decoder error ping"@),
        BootStep::StartDecoder => Some("Failed to start decoder"@),
        _ => None,
    }
}

/// What to say of a step that failed, where `video` is the path that was asked for.
pub fn failure_text(step: BootStep, video: &str) -> (r: Option<String>)
    ensures
        match failure_of(step, video@) {
            Some(t) => r matches Some(u) && u@ == t,
            None => r is None,
        },
{
    match step {
        BootStep::FindVideo => Some(text::join("Video file does not exist: ", video)),
        BootStep::ResolveVideo => Some("Error resolving video path".to_string()),
        BootStep::Connect => Some("Could not connect to Wayland server, is WAYLAND_DISPLAY set?".to_string()),
        BootStep::InitRegistry => Some("Error initializing Wayland registry".to_string()),
        BootStep::BindCompositor => Some("Compositor does not support wl_compositor".to_string()),
        BootStep::BindLayerShell => Some("zwlr_layer_shell_v1 not available".to_string()),
        BootStep::BindViewporter => Some("wl_viewporter not available, fallback to logical size for EGL".to_string()),
        BootStep::BindDmabuf => Some("Compositor does not support zwp_linux_dmabuf_v1 v4 (required for drm pipeline)".to_string()),
        BootStep::Roundtrip => Some("Error in initial roundtrip".to_string()),
        BootStep::Configured => Some("Compositor did not send zwl_layer_surface_v1.configure within waiting time.".to_string()),
        BootStep::MainDevice => Some("Compositor did not send zwp_linux_dmabuf_feedback_v1.main_device within waiting time.".to_string()),
        BootStep::ResolveRenderNode => Some("Failed to resolve compositor render node".to_string()),
        BootStep::MakeWakeup => Some("Failed to create decoder wakeup ping".to_string()),
        BootStep::MakeErrorWakeup => Some("Failed to create decoder error ping".to_string()),
        BootStep::StartDecoder => Some("Failed to start decoder".to_string()),
        _ => None,
    }
}

/// The state after a run of outcomes; one that is not of the current step has no effect.
pub open spec fn run(b: BootModel, outcomes: Seq<Outcome>) -> BootModel
    decreases outcomes.len(),
{
    if outcomes.len() == 0 {
        b
    } else {
        let before = run(b, outcomes.drop_last());
        if answers(before, outcomes.last()) {
            let (after, _) = next(before, outcomes.last());
            after
        } else {
            before
        }
    }
}

/// A set-up that goes through was either done as asked, or took OpenGL instead of
/// hardware decoding where that was allowed; it never decodes on the GPU for OpenGL.
pub proof fn law_fallback_only_to_gl(b: BootModel, outcomes: Seq<Outcome>)
    requires
        b.at == 0,
        b.use_hwdec == (b.pipeline == Pipeline::Drm),
    ensures
        ({
            let after = run(b, outcomes);
            &&& after.use_hwdec == (after.pipeline == Pipeline::Drm)
            &&& after.use_gl == b.use_gl
            &&& after.pipeline != b.pipeline ==> b.pipeline == Pipeline::Drm && b.use_gl
        }),
    decreases outcomes.len(),
{
    if outcomes.len() > 0 {
        law_fallback_only_to_gl(b, outcomes.drop_last());
    }
}

/// Without a single failure every step of the chosen pipeline is performed, in order.
pub proof fn law_steps_in_order(b: BootModel, outcomes: Seq<Outcome>)
    requires
        b.at == 0,
        outcomes.len() <= steps(b.pipeline).len(),
        forall|i: int|
            0 <= i < outcomes.len() ==> {
                &&& succeeded(#[trigger] outcomes[i])
                &&& steps(b.pipeline)[i] == BootStep::ResolveRenderNode <==> outcomes[i] is Node
            },
    ensures
        run(b, outcomes) == (BootModel {
            at: outcomes.len(),
            node: run(b, outcomes).node,
            ..b
        }),
    decreases outcomes.len(),
{
    if outcomes.len() > 0 {
        let front = outcomes.drop_last();
        assert forall|i: int| 0 <= i < front.len() implies {
            &&& succeeded(#[trigger] front[i])
            &&& steps(b.pipeline)[i] == BootStep::ResolveRenderNode <==> front[i] is Node
        } by {
            assert(front[i] == outcomes[i]);
        }
        law_steps_in_order(b, front);
        assert(outcomes[outcomes.len() - 1] == outcomes.last());
    }
}

/// The decoder is started with the render node that was resolved, and only for hardware
/// decoding: none is there before or for OpenGL.
pub proof fn law_decoder_gets_resolved_node(b: BootModel, outcomes: Seq<Outcome>)
    requires
        b.at == 0,
        b.node is None,
    ensures
        ({
            let after = run(b, outcomes);
            let done = steps(after.pipeline).take(after.at as int);
            &&& after.at <= steps(after.pipeline).len()
            &&& done.contains(BootStep::ResolveRenderNode) ==> after.node is Some
                && outcomes.contains(Outcome::Node(after.node))
            &&& !done.contains(BootStep::ResolveRenderNode) ==> after.node is None
            &&& after.pipeline == Pipeline::EglGl ==> after.node is None
        }),
    decreases outcomes.len(),
{
    let after = run(b, outcomes);
    let all = steps(after.pipeline);
    if outcomes.len() > 0 {
        let front = outcomes.drop_last();
        law_decoder_gets_resolved_node(b, front);
        let before = run(b, front);
        let done = steps(before.pipeline).take(before.at as int);
        if front.contains(Outcome::Node(before.node)) {
            let i = choose|i: int| 0 <= i < front.len() && front[i] == Outcome::Node(before.node);
            assert(outcomes[i] == Outcome::Node(before.node));
        }
        if answers(before, outcomes.last()) {
            assert(outcomes[outcomes.len() - 1] == outcomes.last());
            if after.at == before.at + 1 {
                assert(all.take(after.at as int) =~= done.push(all[before.at as int]));
                assert(all.take(after.at as int)[before.at as int] == all[before.at as int]);
                if done.contains(BootStep::ResolveRenderNode) {
                    let i = choose|i: int|
                        0 <= i < done.len() && done[i] == BootStep::ResolveRenderNode;
                    assert(all.take(after.at as int)[i] == BootStep::ResolveRenderNode);
                }
            }
        }
    } else {
        assert(all.take(0) =~= Seq::empty());
    }
}

/// A missing viewporter never ends the attempt.
pub proof fn law_viewporter_is_optional(b: BootModel, ok: bool)
    requires
        b.at < steps(b.pipeline).len(),
        steps(b.pipeline)[b.at as int] == BootStep::BindViewporter,
    ensures
        next(b, Outcome::Went(ok)) == next(b, Outcome::Went(true)),
        !(next(b, Outcome::Went(ok)).1 is Fail),
{
}

/// An object that the compositor announced.
pub struct Global {
    pub name: u32,
    pub interface: String,
    pub version: u32,
}

pub open spec fn is_output_global(g: Global) -> bool {
    g.interface@ == "wl_output"@
}

/// The name and version to bind an output by.
pub open spec fn binding_of(g: Global) -> (u32, u32) {
    (
        g.name,
        if g.version < OUTPUT_VERSION {
            g.version
        } else {
            OUTPUT_VERSION
        },
    )
}

/// The outputs among what the compositor announced.
pub open spec fn output_bindings_of(globals: Seq<Global>) -> Seq<(u32, u32)>
    decreases globals.len(),
{
    if globals.len() == 0 {
        seq![]
    } else if is_output_global(globals.last()) {
        output_bindings_of(globals.drop_last()).push(binding_of(globals.last()))
    } else {
        output_bindings_of(globals.drop_last())
    }
}

/// The name and version to bind each output by, in the order of announcement.
pub fn output_bindings(globals: &Vec<Global>) -> (r: Vec<(u32, u32)>)
    ensures
        r@ == output_bindings_of(globals@),
{
    let mut r: Vec<(u32, u32)> = Vec::new();
    let mut i: usize = 0;
    while i < globals.len()
        invariant
            i <= globals.len(),
            r@ == output_bindings_of(globals@.take(i as int)),
        decreases globals.len() - i,
    {
        assert(globals@.take(i + 1).drop_last() =~= globals@.take(i as int));
        if text::same(globals[i].interface.as_str(), "wl_output") {
            let version: u32 = if globals[i].version < OUTPUT_VERSION {
                globals[i].version
            } else {
                OUTPUT_VERSION
            };
            r.push((globals[i].name, version));
        }
        i += 1;
    }
    assert(globals@.take(i as int) =~= globals@);
    r
}

/// Why no output can be shown on.
#[derive(Debug, PartialEq, Eq)]
pub enum OutputError {
    /// Names that were asked for and that no output has.
    Unknown(Vec<String>),
    /// There is no output.
    NoOutputs,
}

/// The names as a list, each in quotes.
pub open spec fn names_list(names: Seq<Seq<char>>) -> Seq<char> {
    text::list_of(names.map_values(|n: Seq<char>| text::debug_text(n)))
}

/// What is said where the named outputs do not exist, in words and with the list of names.
pub open spec fn unknown_outputs_text(names: Seq<char>) -> Seq<char> {
    "The following output names do not exist: "@ + names
}

/// What is said where there is no output, in words and with the list of names.
pub open spec fn no_outputs_text(names: Seq<char>) -> Seq<char> {
    "No outputs detected. Make sure output names match. Requested: "@ + names
}

/// What to say where no output has the names in the list.
pub fn say_unknown_outputs(names: &str) -> (r: String)
    ensures
        r@ == unknown_outputs_text(names@),
{
    text::join("The following output names do not exist: ", names)
}

/// What to say where there is no output, given the list of the names that were asked for.
pub fn say_no_outputs(names: &str) -> (r: String)
    ensures
        r@ == no_outputs_text(names@),
{
    text::join("No outputs detected. Make sure output names match. Requested: ", names)
}

fn quoted_names(names: &Vec<String>) -> (r: String)
    ensures
        r@ == names_list(names.deep_view()),
{
    let ghost all = names.deep_view();
    let ghost shown = all.map_values(|n: Seq<char>| text::debug_text(n));
    let mut list: Vec<String> = Vec::new();
    let mut i: usize = 0;
    assert(list.deep_view() =~= shown.take(0));
    while i < names.len()
        invariant
            i <= names.len(),
            all == names.deep_view(),
            shown == all.map_values(|n: Seq<char>| text::debug_text(n)),
            list.deep_view() == shown.take(i as int),
        decreases names.len() - i,
    {
        let ghost before = list.deep_view();
        let name = text::debug_str(names[i].as_str());
        assert(all[i as int] == names@[i as int]@);
        assert(name@ == shown[i as int]);
        list.push(name);
        assert(list.deep_view() =~= before.push(name@));
        assert(list.deep_view() =~= shown.take(i + 1));
        i += 1;
    }
    assert(shown.take(shown.len() as int) =~= shown);
    text::list_text(&list)
}

impl OutputError {
    /// What is said of the error, where `requested` are the names that were asked for.
    pub open spec fn text_of(self, requested: Seq<Seq<char>>) -> Seq<char> {
        match self {
            OutputError::Unknown(names) => unknown_outputs_text(names_list(names.deep_view())),
            OutputError::NoOutputs => no_outputs_text(names_list(requested)),
        }
    }

    /// What to say of the error, where `requested` are the names that were asked for.
    pub fn text(&self, requested: &Vec<String>) -> (r: String)
        ensures
            r@ == self.text_of(requested.deep_view()),
    {
        match self {
            OutputError::Unknown(names) => say_unknown_outputs(quoted_names(names).as_str()),
            OutputError::NoOutputs => say_no_outputs(quoted_names(requested).as_str()),
        }
    }
}

/// Whether an output has the name.
pub open spec fn has_name(m: MonitorModel, name: Seq<char>) -> bool {
    m.name == Some(name)
}

pub open spec fn is_known(monitors: Seq<MonitorModel>, name: Seq<char>) -> bool {
    exists|i: int| 0 <= i < monitors.len() && has_name(#[trigger] monitors[i], name)
}

/// The names that no output has.
pub open spec fn unknown_names(
    monitors: Seq<MonitorModel>,
    requested: Seq<Seq<char>>,
) -> Seq<Seq<char>> {
    requested.filter(|name: Seq<char>| !is_known(monitors, name))
}

pub open spec fn is_requested(m: MonitorModel, requested: Seq<Seq<char>>) -> bool {
    m.name matches Some(name) && requested.contains(name)
}

/// The outputs to show on; all of them where no names were given.
pub open spec fn selected(
    monitors: Seq<MonitorModel>,
    requested: Seq<Seq<char>>,
) -> Seq<MonitorModel> {
    if requested.len() == 0 {
        monitors
    } else {
        monitors.filter(|m: MonitorModel| is_requested(m, requested))
    }
}

fn knows(monitors: &Vec<Monitor>, name: &str) -> (r: bool)
    ensures
        r == is_known(state::monitor_models(monitors@), name@),
{
    let ghost models = state::monitor_models(monitors@);
    let mut i: usize = 0;
    while i < monitors.len()
        invariant
            i <= monitors.len(),
            models == state::monitor_models(monitors@),
            forall|j: int| 0 <= j < i ==> !has_name(#[trigger] models[j], name@),
        decreases monitors.len() - i,
    {
        assert(models[i as int] == monitors@[i as int]@);
        if let Some(n) = &monitors[i].name {
            if text::same(n.as_str(), name) {
                assert(has_name(models[i as int], name@));
                return true;
            }
        }
        i += 1;
    }
    false
}

proof fn lemma_filter_step<A>(s: Seq<A>, i: int, f: spec_fn(A) -> bool)
    requires
        0 <= i < s.len(),
    ensures
        s.take(i + 1).filter(f) == if f(s[i]) {
            s.take(i).filter(f).push(s[i])
        } else {
            s.take(i).filter(f)
        },
{
    reveal(Seq::filter);
    assert(s.take(i + 1).drop_last() =~= s.take(i));
}

fn find_unknown(monitors: &Vec<Monitor>, requested: &Vec<String>) -> (r: Vec<String>)
    ensures
        r.deep_view() == unknown_names(
            state::monitor_models(monitors@),
            requested.deep_view(),
        ),
{
    let ghost models = state::monitor_models(monitors@);
    let ghost names = requested.deep_view();
    let ghost f = |name: Seq<char>| !is_known(models, name);
    let mut r: Vec<String> = Vec::new();
    let mut i: usize = 0;
    proof {
        reveal(Seq::filter);
        assert(names.take(0) =~= seq![]);
        assert(r.deep_view() =~= names.take(0).filter(f));
    }
    while i < requested.len()
        invariant
            i <= requested.len(),
            models == state::monitor_models(monitors@),
            names == requested.deep_view(),
            f == (|name: Seq<char>| !is_known(models, name)),
            r.deep_view() == names.take(i as int).filter(f),
        decreases requested.len() - i,
    {
        proof {
            lemma_filter_step(names, i as int, f);
        }
        let ghost before = r.deep_view();
        if !knows(monitors, requested[i].as_str()) {
            r.push(requested[i].as_str().to_string());
            assert(r.deep_view() =~= before.push(names[i as int]));
        }
        i += 1;
    }
    assert(names.take(i as int) =~= names);
    r
}

/// Keeps the outputs that were asked for by name, or all of them where none was. Fails
/// on names that no output has, and where no output is there.
pub fn filter_outputs_by_name(monitors: &mut Vec<Monitor>, requested: &Vec<String>) -> (r: Result<
    (),
    OutputError,
>)
    ensures
        ({
            let models = state::monitor_models(old(monitors)@);
            let after = state::monitor_models(final(monitors)@);
            let unknown = unknown_names(models, requested.deep_view());
            let kept = selected(models, requested.deep_view());
            if unknown.len() > 0 {
                &&& r matches Err(OutputError::Unknown(names)) && names.deep_view() == unknown
                &&& after == models
            } else if kept.len() == 0 {
                &&& r matches Err(OutputError::NoOutputs)
                &&& after == kept
            } else {
                &&& r is Ok
                &&& after == kept
            }
        }),
{
    let ghost models = state::monitor_models(monitors@);
    let ghost names = requested.deep_view();
    let ghost f = |m: MonitorModel| is_requested(m, names);
    let unknown = find_unknown(monitors, requested);
    assert(unknown.deep_view().len() == unknown.len());
    if unknown.len() > 0 {
        return Err(OutputError::Unknown(unknown));
    }
    if requested.len() > 0 {
        let mut i: usize = 0;
        let ghost mut seen: int = 0;
        proof {
            reveal(Seq::filter);
            assert(models.take(0) =~= seq![]);
            assert(state::monitor_models(monitors@).take(0) =~= models.take(0).filter(f));
            assert(models.skip(0) =~= models);
            assert(state::monitor_models(monitors@).skip(0) =~= models);
        }
        while i < monitors.len()
            invariant
                i <= monitors.len(),
                0 <= seen <= models.len(),
                seen - i == models.len() - monitors.len(),
                names == requested.deep_view(),
                f == (|m: MonitorModel| is_requested(m, names)),
                state::monitor_models(monitors@).take(i as int) == models.take(seen).filter(f),
                state::monitor_models(monitors@).skip(i as int) == models.skip(seen),
            decreases monitors.len() - i,
        {
            let ghost now = state::monitor_models(monitors@);
            proof {
                lemma_filter_step(models, seen, f);
                assert(now.skip(i as int)[0] == now[i as int]);
                assert(models.skip(seen)[0] == models[seen]);
                assert(now[i as int] == monitors@[i as int]@);
                assert(models.skip(seen + 1) =~= models.skip(seen).skip(1));
            }
            let keep = match &monitors[i].name {
                Some(n) => text::contains_name(requested, n.as_str()),
                None => false,
            };
            if keep {
                i += 1;
                assert(now.take(i as int) =~= now.take(i - 1).push(now[i - 1]));
                assert(now.skip(i as int) =~= now.skip(i - 1).skip(1));
            } else {
                monitors.remove(i);
                proof {
                    let after = state::monitor_models(monitors@);
                    assert(after.take(i as int) =~= now.take(i as int));
                    assert(after.skip(i as int) =~= now.skip(i as int).skip(1));
                }
            }
            proof {
                seen = seen + 1;
            }
        }
        assert(models.take(seen) =~= models);
        assert(state::monitor_models(monitors@).take(i as int) =~= state::monitor_models(
            monitors@,
        ));
    }
    if monitors.len() == 0 {
        return Err(OutputError::NoOutputs);
    }
    Ok(())
}

/// Where the selection succeeds, each output in it has one of the names that were given,
/// and each of the names is that of an output in it.
pub proof fn law_selection_matches_names(monitors: Seq<MonitorModel>, requested: Seq<Seq<char>>)
    requires
        requested.len() > 0,
        unknown_names(monitors, requested).len() == 0,
    ensures
        forall|i: int|
            0 <= i < selected(monitors, requested).len() ==> is_requested(
                #[trigger] selected(monitors, requested)[i],
                requested,
            ),
        forall|j: int|
            0 <= j < requested.len() ==> is_known(
                selected(monitors, requested),
                #[trigger] requested[j],
            ),
{
    broadcast use vstd::seq_lib::group_filter_ensures;

    let f = |m: MonitorModel| is_requested(m, requested);
    let g = |name: Seq<char>| !is_known(monitors, name);
    let kept = selected(monitors, requested);
    assert forall|i: int| 0 <= i < kept.len() implies is_requested(#[trigger] kept[i], requested) by {
        assert(f(kept[i]));
    }
    assert forall|j: int| 0 <= j < requested.len() implies is_known(kept, #[trigger] requested[j]) by {
        let name = requested[j];
        if !is_known(monitors, name) {
            assert(g(name));
            assert(requested.filter(g).contains(name));
        }
        let i = choose|i: int| 0 <= i < monitors.len() && has_name(#[trigger] monitors[i], name);
        assert(f(monitors[i]));
        assert(kept.contains(monitors[i]));
        let k = choose|k: int| 0 <= k < kept.len() && kept[k] == monitors[i];
        assert(has_name(kept[k], name));
    }
}

/// The output with a size to fall back to where it told none.
pub open spec fn sized(m: MonitorModel) -> MonitorModel {
    if m.physical_width == 0 || m.physical_height == 0 {
        MonitorModel { physical_width: FALLBACK_WIDTH, physical_height: FALLBACK_HEIGHT, ..m }
    } else {
        m
    }
}

/// The output with its size and a surface.
pub open spec fn covered(m: MonitorModel, viewporter: bool) -> MonitorModel {
    MonitorModel {
        surface: true,
        layer_surface: true,
        viewport: m.viewport || viewporter,
        ..sized(m)
    }
}

/// Whether the compositor's first events that a pipeline waits for have come: every surface
/// is configured and, for DMA-BUFs, the device is known.
pub open spec fn settled(a: AppModel, p: Pipeline) -> bool {
    a.configured && (p == Pipeline::Drm ==> a.dmabuf_main_device is Some)
}

impl App {
    /// Whether the compositor's first events that the pipeline waits for have come.
    pub fn is_settled(&self, pipeline: Pipeline) -> (r: bool)
        ensures
            r == settled(self@, pipeline),
    {
        self.configured && match pipeline {
            Pipeline::Drm => self.dmabuf_main_device.is_some(),
            Pipeline::EglGl => true,
        }
    }

    /// Adds the output that the compositor knows by `output`.
    pub fn add_output(&mut self, output: u32)
        ensures
            final(self)@ == (AppModel {
                monitors: old(self)@.monitors.push(
                    MonitorModel {
                        name: None,
                        output: Some(output),
                        surface: false,
                        layer_surface: false,
                        viewport: false,
                        physical_width: 0,
                        physical_height: 0,
                        logical_width: 0,
                        logical_height: 0,
                        configured: false,
                    },
                ),
                ..old(self)@
            }),
    {
        let ghost before = state::monitor_models(self.monitors@);
        let monitor = Monitor::new(output);
        let ghost model = monitor@;
        self.monitors.push(monitor);
        assert(state::monitor_models(self.monitors@) =~= before.push(model));
    }

    /// Puts a surface on every output; returns how each is to be set up.
    pub fn create_layer_shell_surfaces(&mut self, viewporter: bool) -> (r: Vec<LayerSettings>)
        ensures
            r.len() == old(self)@.monitors.len(),
            forall|i: int|
                0 <= i < r.len() ==> {
                    &&& surfaces::is_wallpaper(#[trigger] r@[i])
                    &&& r@[i].output == old(self)@.monitors[i].output
                    &&& r@[i].index == i
                },
            final(self)@ == (AppModel {
                monitors: old(self)@.monitors.map_values(
                    |m: MonitorModel| covered(m, viewporter),
                ),
                ..old(self)@
            }),
    {
        let ghost before = state::monitor_models(self.monitors@);
        let ghost whole = self@;
        let mut r: Vec<LayerSettings> = Vec::new();
        let mut i: usize = 0;
        while i < self.monitors.len()
            invariant
                i <= self.monitors.len(),
                r.len() == i,
                before.len() == self.monitors.len(),
                before == whole.monitors,
                forall|j: int|
                    0 <= j < i ==> {
                        &&& surfaces::is_wallpaper(#[trigger] r@[j])
                        &&& r@[j].output == before[j].output
                        &&& r@[j].index == j
                    },
                forall|j: int|
                    0 <= j < i ==> (#[trigger] self.monitors@[j])@ == covered(
                        before[j],
                        viewporter,
                    ),
                forall|j: int|
                    i <= j < self.monitors.len() ==> (#[trigger] self.monitors@[j])@ == before[j],
                self@ == (AppModel {
                    monitors: state::monitor_models(self.monitors@),
                    ..whole
                }),
            decreases self.monitors.len() - i,
        {
            let m: &mut Monitor = &mut self.monitors[i];
            if m.physical_width == 0 || m.physical_height == 0 {
                m.physical_width = FALLBACK_WIDTH;
                m.physical_height = FALLBACK_HEIGHT;
            }
            let settings = App::create_surfaces(m, i, viewporter);
            r.push(settings);
            i += 1;
        }
        assert(state::monitor_models(self.monitors@) =~= before.map_values(
            |m: MonitorModel| covered(m, viewporter),
        ));
        r
    }
}

/// The turn of each step among all; a step needs only what earlier ones provide.
pub open spec fn turn(s: BootStep) -> int {
    match s {
        BootStep::FindVideo => 0,
        BootStep::ResolveVideo => 1,
        BootStep::Connect => 2,
        BootStep::InitRegistry => 3,
        BootStep::BindCompositor => 4,
        BootStep::BindLayerShell => 5,
        BootStep::BindViewporter => 6,
        BootStep::BindDmabuf => 7,
        BootStep::BindOutputs => 8,
        BootStep::Roundtrip => 9,
        BootStep::FilterOutputs => 10,
        BootStep::CreateSurfaces => 11,
        BootStep::Wait => 12,
        BootStep::Configured => 13,
        BootStep::MainDevice => 14,
        BootStep::DestroyFeedback => 15,
        BootStep::ResolveRenderNode => 16,
        BootStep::InitGl => 17,
        BootStep::MakeWakeup => 18,
        BootStep::MakeErrorWakeup => 19,
        BootStep::StartDecoder => 20,
    }
}

/// Both pipelines take their steps in the same order, none twice. OpenGL takes all but those
/// that find the compositor's device, and hardware decoding all but those that draw.
pub proof fn law_each_step_has_its_turn(p: Pipeline, s: BootStep)
    ensures
        forall|i: int, j: int|
            0 <= i < j < steps(p).len() ==> turn(#[trigger] steps(p)[i]) < turn(
                #[trigger] steps(p)[j],
            ),
        p == Pipeline::EglGl ==> (steps(p).contains(s) <==> s != BootStep::BindDmabuf && s
            != BootStep::MainDevice && s != BootStep::DestroyFeedback && s
            != BootStep::ResolveRenderNode),
        p == Pipeline::Drm ==> (steps(p).contains(s) <==> s != BootStep::ResolveVideo && s
            != BootStep::InitGl),
{
    let gl = steps(Pipeline::EglGl);
    let drm = steps(Pipeline::Drm);
    assert(gl.len() == 17);
    assert(drm.len() == 19);
    if p == Pipeline::EglGl {
        assert(gl[0] == BootStep::FindVideo && gl[1] == BootStep::ResolveVideo && gl[2]
            == BootStep::Connect && gl[3] == BootStep::InitRegistry && gl[4]
            == BootStep::BindCompositor && gl[5] == BootStep::BindLayerShell && gl[6]
            == BootStep::BindViewporter && gl[7] == BootStep::BindOutputs && gl[8]
            == BootStep::Roundtrip && gl[9] == BootStep::FilterOutputs && gl[10]
            == BootStep::CreateSurfaces && gl[11] == BootStep::Wait && gl[12]
            == BootStep::Configured && gl[13] == BootStep::InitGl && gl[14]
            == BootStep::MakeWakeup && gl[15] == BootStep::MakeErrorWakeup && gl[16]
            == BootStep::StartDecoder);
    } else {
        assert(drm[0] == BootStep::FindVideo && drm[1] == BootStep::Connect && drm[2]
            == BootStep::InitRegistry && drm[3] == BootStep::BindCompositor && drm[4]
            == BootStep::BindLayerShell && drm[5] == BootStep::BindViewporter && drm[6]
            == BootStep::BindDmabuf && drm[7] == BootStep::BindOutputs && drm[8]
            == BootStep::Roundtrip && drm[9] == BootStep::FilterOutputs && drm[10]
            == BootStep::CreateSurfaces && drm[11] == BootStep::Wait && drm[12]
            == BootStep::Configured && drm[13] == BootStep::MainDevice && drm[14]
            == BootStep::DestroyFeedback && drm[15] == BootStep::ResolveRenderNode && drm[16]
            == BootStep::MakeWakeup && drm[17] == BootStep::MakeErrorWakeup && drm[18]
            == BootStep::StartDecoder);
    }
}

/// A step that succeeds leads to the one after it, or to the end after the last; nothing but
/// the node that it found changes. A step that fails ends the attempt, except for the
/// viewporter, which is not needed, and for DMA-BUFs, without which OpenGL starts from the
/// first step where it is allowed. The feedback object is destroyed where the wait for it was
/// in vain.
pub proof fn law_failure_ends_or_falls_back(b: BootModel, o: Outcome)
    requires
        answers(b, o),
    ensures
        ({
            let all = steps(b.pipeline);
            let step = all[b.at as int];
            let went = o == Outcome::Went(true) || (o matches Outcome::Node(found) && found is Some);
            let (after, action) = next(b, o);
            &&& went || step == BootStep::BindViewporter ==> {
                &&& after.at == b.at + 1
                &&& after.pipeline == b.pipeline
                &&& after.use_hwdec == b.use_hwdec
                &&& after.use_gl == b.use_gl
                &&& after.node == (if o is Node {
                    o->Node_0
                } else {
                    b.node
                })
                &&& b.at + 1 < all.len() ==> action == BootAction::Perform(all[b.at as int + 1])
                &&& b.at + 1 == all.len() ==> action == BootAction::Ready
            }
            &&& !went && step == BootStep::BindDmabuf && b.use_gl ==> {
                &&& action == BootAction::FallBack(BootStep::FindVideo)
                &&& after == (BootModel {
                    pipeline: Pipeline::EglGl,
                    use_hwdec: false,
                    use_gl: true,
                    at: 0,
                    node: None,
                })
            }
            &&& !went && step != BootStep::BindViewporter && !(step == BootStep::BindDmabuf
                && b.use_gl) ==> {
                &&& after.at == b.at
                &&& after.pipeline == b.pipeline
                &&& action matches BootAction::Fail { step: failed, destroy_feedback }
                &&& failed == step
                &&& destroy_feedback <==> b.pipeline == Pipeline::Drm && (step
                    == BootStep::Configured || step == BootStep::MainDevice)
            }
        }),
{
}

/// Hardware decoding is taken exactly where it is asked for, OpenGL where it is not and OpenGL
/// is allowed; without either there is nothing to draw with.
pub proof fn law_pipeline_is_the_one_asked_for(use_vaapi: bool, use_gl: bool)
    ensures
        pipeline_for(use_vaapi, use_gl) == Some(Pipeline::Drm) <==> use_vaapi,
        pipeline_for(use_vaapi, use_gl) == Some(Pipeline::EglGl) <==> !use_vaapi && use_gl,
        pipeline_for(use_vaapi, use_gl) is None <==> !use_vaapi && !use_gl,
{
}

/// The outputs that are bound are those announced as such, in the order of announcement, each
/// by its name and in the highest version that both sides understand.
pub proof fn law_announced_outputs_are_bound(globals: Seq<Global>, g: Global)
    ensures
        output_bindings_of(Seq::empty()) == Seq::<(u32, u32)>::empty(),
        g.interface@ == "wl_output"@ && g.version <= 4 ==> output_bindings_of(globals.push(g))
            == output_bindings_of(globals).push((g.name, g.version)),
        g.interface@ == "wl_output"@ && g.version > 4 ==> output_bindings_of(globals.push(g))
            == output_bindings_of(globals).push((g.name, 4)),
        g.interface@ != "wl_output"@ ==> output_bindings_of(globals.push(g)) == output_bindings_of(
            globals,
        ),
{
    assert(globals.push(g).drop_last() =~= globals);
}

/// An output is kept exactly where one of the names that were given is its own, in the order of
/// the outputs; without names all are.
pub proof fn law_named_outputs_are_kept(
    monitors: Seq<MonitorModel>,
    m: MonitorModel,
    requested: Seq<Seq<char>>,
)
    ensures
        requested.len() == 0 ==> selected(monitors, requested) == monitors,
        selected(Seq::empty(), requested) == Seq::<MonitorModel>::empty(),
        (exists|j: int| 0 <= j < requested.len() && m.name == Some(#[trigger] requested[j]))
            ==> selected(monitors.push(m), requested) == selected(monitors, requested).push(m),
        requested.len() > 0 && (forall|j: int|
            0 <= j < requested.len() ==> m.name != Some(#[trigger] requested[j])) ==> selected(
            monitors.push(m),
            requested,
        ) == selected(monitors, requested),
{
    reveal(Seq::filter);
    assert(monitors.push(m).drop_last() =~= monitors);
    if exists|j: int| 0 <= j < requested.len() && m.name == Some(#[trigger] requested[j]) {
        let j = choose|j: int| 0 <= j < requested.len() && m.name == Some(#[trigger] requested[j]);
        assert(requested.contains(requested[j]));
        assert(is_requested(m, requested));
    } else {
        assert(!is_requested(m, requested));
    }
}

/// A name is unknown exactly where no output has it; unknown names are told in the order in
/// which they were given.
pub proof fn law_unknown_names_are_told(
    monitors: Seq<MonitorModel>,
    requested: Seq<Seq<char>>,
    name: Seq<char>,
)
    ensures
        unknown_names(monitors, Seq::empty()) == Seq::<Seq<char>>::empty(),
        (exists|i: int| 0 <= i < monitors.len() && (#[trigger] monitors[i]).name == Some(name))
            ==> unknown_names(monitors, requested.push(name)) == unknown_names(monitors, requested),
        (forall|i: int| 0 <= i < monitors.len() ==> (#[trigger] monitors[i]).name != Some(name))
            ==> unknown_names(monitors, requested.push(name)) == unknown_names(
            monitors,
            requested,
        ).push(name),
{
    reveal(Seq::filter);
    assert(requested.push(name).drop_last() =~= requested);
    if exists|i: int| 0 <= i < monitors.len() && (#[trigger] monitors[i]).name == Some(name) {
        let i = choose|i: int|
            0 <= i < monitors.len() && (#[trigger] monitors[i]).name == Some(name);
        assert(has_name(monitors[i], name));
    } else {
        assert forall|i: int| 0 <= i < monitors.len() implies !has_name(
            #[trigger] monitors[i],
            name,
        ) by {
            assert(monitors[i].name != Some(name));
        }
        assert(!is_known(monitors, name));
    }
}

/// An output that tells its size keeps it, and one that does not is taken to have 1920 by 1080
/// pixels; each gets a surface, and a viewport where there are any. Nothing else changes.
pub proof fn law_covered_output_has_a_size(m: MonitorModel, viewporter: bool)
    ensures
        ({
            let c = covered(m, viewporter);
            &&& m.physical_width != 0 && m.physical_height != 0 ==> c.physical_width
                == m.physical_width && c.physical_height == m.physical_height
            &&& m.physical_width == 0 || m.physical_height == 0 ==> c.physical_width == 1920
                && c.physical_height == 1080
            &&& c.surface && c.layer_surface
            &&& c.viewport <==> m.viewport || viewporter
            &&& c.name == m.name && c.output == m.output
            &&& c.logical_width == m.logical_width && c.logical_height == m.logical_height
            &&& c.configured == m.configured
        }),
{
}

/// Both pipelines wait for the surfaces, and only the one that hands over DMA-BUFs waits for
/// the device.
pub proof fn law_what_is_waited_for(a: AppModel)
    ensures
        settled(a, Pipeline::EglGl) <==> a.configured,
        settled(a, Pipeline::Drm) <==> a.configured && a.dmabuf_main_device is Some,
        CONFIGURE_SECONDS == 2,
{
}

/// A video that is missing is named, and only then does what is said depend on the video.
pub proof fn law_missing_video_is_named(step: BootStep, video: Seq<char>, other: Seq<char>)
    ensures
        failure_of(BootStep::FindVideo, video) == Some("Video file does not exist: "@ + video),
        step != BootStep::FindVideo ==> failure_of(step, video) == failure_of(step, other),
        failure_of(step, video) is None <==> step == BootStep::BindOutputs || step
            == BootStep::FilterOutputs || step == BootStep::CreateSurfaces || step
            == BootStep::Wait || step == BootStep::DestroyFeedback || step == BootStep::InitGl,
{
}

/// What is said of outputs that cannot be shown on ends with the list of names.
pub proof fn law_names_are_told(names: Seq<char>)
    ensures
        unknown_outputs_text(names) == "The following output names do not exist: "@ + names,
        no_outputs_text(names)
            == "No outputs detected. Make sure output names match. Requested: "@ + names,
{
}

/// What is said of each step that fails, whatever the video is.
pub proof fn law_failed_step_is_told(video: Seq<char>)
    ensures
        failure_of(BootStep::ResolveVideo, video) == Some(
            "Error resolving video path"@,
        ),
        failure_of(BootStep::Connect, video) == Some(
            "Could not connect to Wayland server, is WAYLAND_DISPLAY set?"@,
        ),
        failure_of(BootStep::InitRegistry, video) == Some(
            "Error initializing Wayland registry"@,
        ),
        failure_of(BootStep::BindCompositor, video) == Some(
            "Compositor does not support wl_compositor"@,
        ),
        failure_of(BootStep::BindLayerShell, video) == Some(
            "zwlr_layer_shell_v1 not available"@,
        ),
        failure_of(BootStep::BindViewporter, video) == Some(
            "wl_viewporter not available, fallback to logical size for EGL"@,
        ),
        failure_of(BootStep::BindDmabuf, video) == Some(
            "Compositor does not support zwp_linux_dmabuf_v1 v4 (required for drm pipeline)"@,
        ),
        failure_of(BootStep::Roundtrip, video) == Some(
            "Error in initial roundtrip"@,
        ),
        failure_of(BootStep::Configured, video) == Some(
            "Compositor did not send zwl_layer_surface_v1.configure within waiting time."@,
        ),
        failure_of(BootStep::MainDevice, video) == Some(
            "Compositor did not send zwp_linux_dmabuf_feedback_v1.main_device within waiting time."@,
        ),
        failure_of(BootStep::ResolveRenderNode, video) == Some(
            "Failed to resolve compositor render node"@,
        ),
        failure_of(BootStep::MakeWakeup, video) == Some(
            "Failed to create decoder wakeup ping"@,
        ),
        failure_of(BootStep::MakeErrorWakeup, video) == Some(
            "Failed to create decoder error ping"@,
        ),
        failure_of(BootStep::StartDecoder, video) == Some(
            "Failed to start decoder"@,
        ),
{
}

/// What is said of outputs that cannot be shown on lists the names, each in quotes: those that
/// no output has, or all that were asked for.
pub proof fn law_output_errors_list_names(names: Vec<String>, requested: Seq<Seq<char>>)
    ensures
        OutputError::Unknown(names).text_of(requested)
            == "The following output names do not exist: "@ + text::list_of(
            Seq::new(names@.len(), |i: int| text::debug_text(names@[i]@)),
        ),
        OutputError::NoOutputs.text_of(requested)
            == "No outputs detected. Make sure output names match. Requested: "@ + text::list_of(
            Seq::new(requested.len(), |i: int| text::debug_text(requested[i])),
        ),
{
    let all = names.deep_view();
    assert(all.map_values(|n: Seq<char>| text::debug_text(n)) =~= Seq::new(
        names@.len(),
        |i: int| text::debug_text(names@[i]@),
    ));
    assert(requested.map_values(|n: Seq<char>| text::debug_text(n)) =~= Seq::new(
        requested.len(),
        |i: int| text::debug_text(requested[i]),
    ));
}

} // verus!
