//! Pixel formats, and frames on the GPU.
use vstd::prelude::*;

use crate::text;

verus! {

/// The pixel formats that the player tells apart.
#[derive(Clone, Copy, Debug, PartialEq, Eq, Structural)]
pub enum PixelFormat {
    /// No format; ends a list of formats.
    NoFormat,
    Yuv420p,
    Nv12,
    Yuv420p10le,
    P010le,
    Vaapi,
    /// Any other format, by the codec library's number.
    Other(i32),
}

/// The codec library's number for [`PixelFormat::Nv12`].
pub const NV12: i32 = 23;

/// The formats that the codec offers: those before the end of the list.
pub open spec fn offered(formats: Seq<PixelFormat>) -> Seq<PixelFormat>
    decreases formats.len(),
{
    if formats.len() == 0 || formats[0] == PixelFormat::NoFormat {
        seq![]
    } else {
        seq![formats[0]] + offered(formats.skip(1))
    }
}

/// The formats that are decoded to memory.
pub open spec fn is_software(f: PixelFormat) -> bool {
    f == PixelFormat::Nv12 || f == PixelFormat::Yuv420p || f == PixelFormat::Yuv420p10le || f
        == PixelFormat::P010le
}

/// The first format in memory, or none.
pub open spec fn first_software(formats: Seq<PixelFormat>) -> PixelFormat
    decreases formats.len(),
{
    if formats.len() == 0 {
        PixelFormat::NoFormat
    } else if is_software(formats[0]) {
        formats[0]
    } else {
        first_software(formats.skip(1))
    }
}

/// Whether decoding on the GPU is worth a try: there is a device, and the codec offers it.
pub open spec fn hardware_offered(has_device: bool, formats: Seq<PixelFormat>) -> bool {
    has_device && offered(formats).contains(PixelFormat::Vaapi)
}

/// The format to decode to, where `hw_ready` says whether frames on the GPU could be set
/// up.
pub open spec fn chosen_format(
    has_device: bool,
    formats: Seq<PixelFormat>,
    hw_ready: bool,
) -> PixelFormat {
    if hardware_offered(has_device, formats) && hw_ready {
        PixelFormat::Vaapi
    } else {
        first_software(offered(formats))
    }
}

proof fn lemma_offered_step(formats: Seq<PixelFormat>, i: int)
    requires
        0 <= i < formats.len(),
        formats[i] != PixelFormat::NoFormat,
    ensures
        offered(formats.skip(i)) == seq![formats[i]] + offered(formats.skip(i + 1)),
{
    assert(formats.skip(i).skip(1) =~= formats.skip(i + 1));
    assert(formats.skip(i)[0] == formats[i]);
}

/// Whether frames on the GPU are to be set up before the format is chosen.
pub fn wants_hardware(has_device: bool, formats: &Vec<PixelFormat>) -> (r: bool)
    ensures
        r == hardware_offered(has_device, formats@),
{
    if !has_device {
        return false;
    }
    let mut i: usize = 0;
    assert(formats@.skip(0) =~= formats@);
    while i < formats.len() && formats[i] != PixelFormat::NoFormat
        invariant
            i <= formats.len(),
            offered(formats@).contains(PixelFormat::Vaapi) == offered(
                formats@.skip(i as int),
            ).contains(PixelFormat::Vaapi),
        decreases formats.len() - i,
    {
        proof {
            lemma_offered_step(formats@, i as int);
        }
        let ghost rest = offered(formats@.skip(i + 1));
        let ghost all = offered(formats@.skip(i as int));
        assert(all[0] == formats@[i as int]);
        if formats[i] == PixelFormat::Vaapi {
            return has_device;
        }
        proof {
            assert(forall|j: int| 0 <= j < rest.len() ==> rest[j] == #[trigger] all[j + 1]);
            if all.contains(PixelFormat::Vaapi) {
                let k = choose|k: int| 0 <= k < all.len() && all[k] == PixelFormat::Vaapi;
                assert(rest[k - 1] == PixelFormat::Vaapi);
            }
            if rest.contains(PixelFormat::Vaapi) {
                let k = choose|k: int| 0 <= k < rest.len() && rest[k] == PixelFormat::Vaapi;
                assert(all[k + 1] == PixelFormat::Vaapi);
            }
        }
        i += 1;
    }
    assert(offered(formats@.skip(i as int)) =~= seq![]);
    false
}

/// Chooses the format to decode to: on the GPU where that was asked for and could be set
/// up, else the first one in memory; none where there is neither.
pub fn vaapi_get_format(has_device: bool, formats: &Vec<PixelFormat>, hw_ready: bool) -> (r:
    PixelFormat)
    ensures
        r == chosen_format(has_device, formats@, hw_ready),
{
    if wants_hardware(has_device, formats) && hw_ready {
        return PixelFormat::Vaapi;
    }
    let mut i: usize = 0;
    assert(formats@.skip(0) =~= formats@);
    while i < formats.len() && formats[i] != PixelFormat::NoFormat
        invariant
            i <= formats.len(),
            !(hardware_offered(has_device, formats@) && hw_ready),
            first_software(offered(formats@)) == first_software(offered(formats@.skip(i as int))),
        decreases formats.len() - i,
    {
        let f = formats[i];
        proof {
            lemma_offered_step(formats@, i as int);
            let all = offered(formats@.skip(i as int));
            assert(all[0] == f);
            assert(all.skip(1) =~= offered(formats@.skip(i + 1)));
        }
        if f == PixelFormat::Nv12 || f == PixelFormat::Yuv420p || f == PixelFormat::Yuv420p10le || f
            == PixelFormat::P010le {
            return f;
        }
        i += 1;
    }
    assert(offered(formats@.skip(i as int)) =~= seq![]);
    PixelFormat::NoFormat
}

/// A format is decoded to only where the codec offers it, and only where it is the one on
/// the GPU, which takes a device and frames that are set up, or one of those in memory.
pub proof fn law_chosen_format_is_offered(
    has_device: bool,
    formats: Seq<PixelFormat>,
    hw_ready: bool,
)
    ensures
        ({
            let f = chosen_format(has_device, formats, hw_ready);
            &&& f != PixelFormat::NoFormat ==> offered(formats).contains(f)
            &&& f == PixelFormat::NoFormat || f == PixelFormat::Vaapi || is_software(f)
            &&& f == PixelFormat::Vaapi ==> has_device && hw_ready
        }),
{
    lemma_first_software(offered(formats));
}

proof fn lemma_first_software(formats: Seq<PixelFormat>)
    ensures
        first_software(formats) != PixelFormat::NoFormat ==> formats.contains(first_software(formats))
            && is_software(first_software(formats)),
    decreases formats.len(),
{
    if formats.len() > 0 {
        let rest = formats.skip(1);
        lemma_first_software(rest);
        let f = first_software(rest);
        if is_software(formats[0]) {
            assert(formats.contains(formats[0]));
        } else if f != PixelFormat::NoFormat {
            let k = choose|k: int| 0 <= k < rest.len() && rest[k] == f;
            assert(formats[k + 1] == f);
        }
    }
}

/// Frames on the GPU, as they are asked for where the codec does not say itself.
#[derive(Clone, Copy, Debug, PartialEq, Eq, Structural)]
pub struct HwFramesSettings {
    pub format: PixelFormat,
    pub sw_format: PixelFormat,
    pub width: i32,
    pub height: i32,
    pub initial_pool_size: i32,
}

/// What to do next to set up frames on the GPU.
#[derive(Clone, Copy, Debug, PartialEq, Eq, Structural)]
pub enum HwFramesAction {
    /// Ask the codec how it wants the frames.
    GetParameters,
    /// Give up what the codec left behind, where that is marked, and make the frames.
    Allocate { unref: bool },
    /// Fill the settings in, then set the frames up.
    Configure(HwFramesSettings),
    /// Set the frames up as the codec wants them.
    Init,
    /// Hand the frames to the codec: hardware decoding is ready.
    Adopt,
    /// Hardware decoding is not ready; give the frames up where that is marked.
    Refuse { unref: bool },
}

/// Where setting up frames on the GPU stands.
#[derive(Clone, Copy, Debug, PartialEq, Eq, Structural)]
pub enum HwFramesState {
    GettingParameters,
    Allocating,
    Initializing,
    Over,
}

/// What came of an action: the library's code, negative for a failure, and whether
/// there are frames.
#[derive(Clone, Copy, Debug, PartialEq, Eq, Structural)]
pub struct HwFramesEvent {
    pub ret: i32,
    pub frames: bool,
}

/// Eight bits a sample, of the size of the video, and sixteen frames to start with.
pub open spec fn manual_settings(width: i32, height: i32) -> HwFramesSettings {
    HwFramesSettings {
        format: PixelFormat::Vaapi,
        sw_format: PixelFormat::Nv12,
        width,
        height,
        initial_pool_size: 16,
    }
}

/// Setting up frames on the GPU for a video of that size.
pub open spec fn next(s: HwFramesState, width: i32, height: i32, e: HwFramesEvent) -> Option<
    (HwFramesState, HwFramesAction),
> {
    match s {
        HwFramesState::GettingParameters => Some(
            if e.ret < 0 {
                (HwFramesState::Allocating, HwFramesAction::Allocate { unref: e.frames })
            } else {
                (HwFramesState::Initializing, HwFramesAction::Init)
            },
        ),
        HwFramesState::Allocating => Some(
            if !e.frames {
                (HwFramesState::Over, HwFramesAction::Refuse { unref: false })
            } else {
                (
                    HwFramesState::Initializing,
                    HwFramesAction::Configure(manual_settings(width, height)),
                )
            },
        ),
        HwFramesState::Initializing => Some(
            if e.ret < 0 {
                (HwFramesState::Over, HwFramesAction::Refuse { unref: true })
            } else {
                (HwFramesState::Over, HwFramesAction::Adopt)
            },
        ),
        HwFramesState::Over => None,
    }
}

/// Setting up frames on the GPU, in progress.
pub struct HwFrames {
    state: HwFramesState,
    width: i32,
    height: i32,
}

impl HwFrames {
    pub closed spec fn state(self) -> HwFramesState {
        self.state
    }

    pub closed spec fn size(self) -> (i32, i32) {
        (self.width, self.height)
    }

    /// Starts for a video of that size.
    pub fn start(width: i32, height: i32) -> (r: (HwFrames, HwFramesAction))
        ensures
            r.0.state() == HwFramesState::GettingParameters,
            r.0.size() == (width, height),
            r.1 == HwFramesAction::GetParameters,
    {
        (
            HwFrames { state: HwFramesState::GettingParameters, width, height },
            HwFramesAction::GetParameters,
        )
    }

    /// The action that follows what came of the last one; `None` when it is over.
    pub fn try_init_vaapi_hw(&mut self, e: HwFramesEvent) -> (r: Option<HwFramesAction>)
        ensures
            final(self).size() == old(self).size(),
            match next(old(self).state(), old(self).size().0, old(self).size().1, e) {
                Some((s, a)) => final(self).state() == s && r == Some(a),
                None => final(self).state() == old(self).state() && r is None,
            },
    {
        let (state, action): (HwFramesState, HwFramesAction) = match self.state {
            HwFramesState::GettingParameters => if e.ret < 0 {
                (HwFramesState::Allocating, HwFramesAction::Allocate { unref: e.frames })
            } else {
                (HwFramesState::Initializing, HwFramesAction::Init)
            },
            HwFramesState::Allocating => if !e.frames {
                (HwFramesState::Over, HwFramesAction::Refuse { unref: false })
            } else {
                (
                    HwFramesState::Initializing,
                    HwFramesAction::Configure(
                        HwFramesSettings {
                            format: PixelFormat::Vaapi,
                            sw_format: PixelFormat::Nv12,
                            width: self.width,
                            height: self.height,
                            initial_pool_size: 16,
                        },
                    ),
                )
            },
            HwFramesState::Initializing => if e.ret < 0 {
                (HwFramesState::Over, HwFramesAction::Refuse { unref: true })
            } else {
                (HwFramesState::Over, HwFramesAction::Adopt)
            },
            HwFramesState::Over => return None,
        };
        self.state = state;
        Some(action)
    }
}

/// Setting up frames takes at most three answers.
pub proof fn law_hw_frames_end(w: i32, h: i32, a: HwFramesEvent, b: HwFramesEvent, c: HwFramesEvent)
    ensures
        ({
            let first = next(HwFramesState::GettingParameters, w, h, a)->0;
            let second = next(first.0, w, h, b)->0;
            ||| second.0 == HwFramesState::Over
            ||| next(second.0, w, h, c) matches Some((s, _)) && s == HwFramesState::Over
        }),
{
}

/// The number to ask the codec library's name for: `fmt` itself where it is a format's
/// number, or that of no format.
pub open spec fn format_number(fmt: i32) -> int {
    if -1 <= fmt <= 266 {
        fmt as int
    } else {
        -1
    }
}

/// The number to ask the codec library's name for.
pub fn pix_fmt_number(fmt: i32) -> (r: i32)
    ensures
        r == format_number(fmt),
{
    if -1 <= fmt && fmt <= 266 {
        fmt
    } else {
        -1
    }
}

/// The name of a format, where `known` is what the codec library calls it.
pub fn pix_fmt_name(fmt: i32, known: Option<String>) -> (r: String)
    ensures
        r@ == match known {
            Some(name) => name@,
            None => "unknown("@ + text::signed_decimal(fmt as int) + ")"@,
        },
{
    match known {
        Some(name) => name,
        None => {
            let mut r = "unknown(".to_string();
            text::push_signed(&mut r, fmt);
            r.append(")");
            r
        },
    }
}

/// The codec offers the format: it stands in the list, before the entry that ends it.
pub open spec fn is_offered(formats: Seq<PixelFormat>, i: int) -> bool {
    &&& 0 <= i < formats.len()
    &&& forall|j: int| 0 <= j <= i ==> (#[trigger] formats[j]) != PixelFormat::NoFormat
}

proof fn lemma_offered_prefix(formats: Seq<PixelFormat>, i: int)
    ensures
        offered(formats).len() <= formats.len(),
        0 <= i < offered(formats).len() <==> is_offered(formats, i),
        0 <= i < offered(formats).len() ==> offered(formats)[i] == formats[i],
    decreases formats.len(),
{
    if formats.len() > 0 && formats[0] != PixelFormat::NoFormat {
        let rest = formats.skip(1);
        lemma_offered_prefix(rest, i - 1);
        if is_offered(formats, i) && i > 0 {
            assert forall|j: int| 0 <= j <= i - 1 implies (#[trigger] rest[j])
                != PixelFormat::NoFormat by {
                assert(rest[j] == formats[j + 1]);
            }
        }
        if is_offered(rest, i - 1) {
            assert forall|j: int| 0 <= j <= i implies (#[trigger] formats[j])
                != PixelFormat::NoFormat by {
                if j > 0 {
                    assert(rest[j - 1] == formats[j]);
                }
            }
        }
    } else {
        if is_offered(formats, i) {
            assert(formats[0] != PixelFormat::NoFormat);
        }
    }
}

proof fn lemma_first_software_place(formats: Seq<PixelFormat>) -> (k: int)
    ensures
        0 <= k <= formats.len(),
        forall|j: int| 0 <= j < k ==> !is_software(#[trigger] formats[j]),
        k < formats.len() ==> is_software(formats[k]) && first_software(formats) == formats[k],
        k == formats.len() ==> first_software(formats) == PixelFormat::NoFormat,
    decreases formats.len(),
{
    if formats.len() > 0 && !is_software(formats[0]) {
        let rest = formats.skip(1);
        let k = lemma_first_software_place(rest);
        assert forall|j: int| 0 <= j < k + 1 implies !is_software(#[trigger] formats[j]) by {
            if j > 0 {
                assert(rest[j - 1] == formats[j]);
            }
        }
        k + 1
    } else {
        0
    }
}

/// Frames are decoded on the GPU exactly where there is a device, the codec offers that and
/// the frames could be set up. Otherwise the format is the first offered one of the four in
/// memory, and none only where none of them is offered.
pub proof fn law_format_is_the_best_offered(
    has_device: bool,
    formats: Seq<PixelFormat>,
    hw_ready: bool,
)
    ensures
        ({
            let f = chosen_format(has_device, formats, hw_ready);
            let gpu = exists|i: int| is_offered(formats, i) && #[trigger] formats[i]
                == PixelFormat::Vaapi;
            &&& hardware_offered(has_device, formats) <==> has_device && gpu
            &&& f == PixelFormat::Vaapi <==> has_device && gpu && hw_ready
            &&& f != PixelFormat::Vaapi && f != PixelFormat::NoFormat ==> exists|i: int|
                {
                    &&& is_offered(formats, i)
                    &&& #[trigger] formats[i] == f
                    &&& f == PixelFormat::Nv12 || f == PixelFormat::Yuv420p || f
                        == PixelFormat::Yuv420p10le || f == PixelFormat::P010le
                    &&& forall|j: int|
                        0 <= j < i ==> (#[trigger] formats[j]) != PixelFormat::Nv12 && formats[j]
                            != PixelFormat::Yuv420p && formats[j] != PixelFormat::Yuv420p10le
                            && formats[j] != PixelFormat::P010le
                }
            &&& f == PixelFormat::NoFormat ==> forall|i: int|
                #![trigger formats[i]]
                is_offered(formats, i) ==> formats[i] != PixelFormat::Nv12 && formats[i]
                    != PixelFormat::Yuv420p && formats[i] != PixelFormat::Yuv420p10le && formats[i]
                    != PixelFormat::P010le
        }),
{
    let all = offered(formats);
    assert forall|i: int| #![trigger formats[i]] is_offered(formats, i) implies 0 <= i < all.len()
        && all[i] == formats[i] by {
        lemma_offered_prefix(formats, i);
    }
    if all.contains(PixelFormat::Vaapi) {
        let i = choose|i: int| 0 <= i < all.len() && all[i] == PixelFormat::Vaapi;
        lemma_offered_prefix(formats, i);
        assert(formats[i] == PixelFormat::Vaapi);
    }
    if exists|i: int| is_offered(formats, i) && #[trigger] formats[i] == PixelFormat::Vaapi {
        let i = choose|i: int| is_offered(formats, i) && #[trigger] formats[i]
            == PixelFormat::Vaapi;
        assert(all[i] == PixelFormat::Vaapi);
    }
    let k = lemma_first_software_place(all);
    let f = chosen_format(has_device, formats, hw_ready);
    lemma_offered_prefix(formats, k);
    if k < all.len() {
        assert forall|j: int| 0 <= j < k implies (#[trigger] formats[j]) != PixelFormat::Nv12
            && formats[j] != PixelFormat::Yuv420p && formats[j] != PixelFormat::Yuv420p10le
            && formats[j] != PixelFormat::P010le by {
            lemma_offered_prefix(formats, j);
            assert(!is_software(all[j]));
        }
        assert(formats[k] == all[k]);
    } else {
        assert forall|i: int| #![trigger formats[i]] is_offered(formats, i) implies formats[i]
            != PixelFormat::Nv12 && formats[i] != PixelFormat::Yuv420p && formats[i]
            != PixelFormat::Yuv420p10le && formats[i] != PixelFormat::P010le by {
            assert(!is_software(all[i]));
        }
    }
}

/// Frames on the GPU are taken as the codec wants them; where it does not say, they are made
/// by hand, of the size of the video and with room for sixteen. They are adopted only where
/// setting them up succeeded, and given up where it failed.
pub proof fn law_hw_frames_are_set_up_or_given_up(w: i32, h: i32, e: HwFramesEvent)
    ensures
        next(HwFramesState::GettingParameters, w, h, e) matches Some((s, a)) && {
            &&& e.ret >= 0 ==> s == HwFramesState::Initializing && a == HwFramesAction::Init
            &&& e.ret < 0 ==> s == HwFramesState::Allocating && a == (HwFramesAction::Allocate {
                unref: e.frames,
            })
        },
        next(HwFramesState::Allocating, w, h, e) matches Some((s, a)) && {
            &&& e.frames ==> s == HwFramesState::Initializing && (a
                matches HwFramesAction::Configure(c) && c.width == w && c.height == h && c.format
                == PixelFormat::Vaapi && c.sw_format == PixelFormat::Nv12 && c.initial_pool_size
                == 16)
            &&& !e.frames ==> s == HwFramesState::Over && a == (HwFramesAction::Refuse {
                unref: false,
            })
        },
        next(HwFramesState::Initializing, w, h, e) matches Some((s, a)) && s == HwFramesState::Over
            && {
            &&& e.ret >= 0 <==> a == HwFramesAction::Adopt
            &&& e.ret < 0 <==> a == (HwFramesAction::Refuse { unref: true })
        },
        next(HwFramesState::Over, w, h, e) is None,
{
}

/// The name is asked for exactly of the numbers that the codec library has a format for, and
/// of no other.
pub proof fn law_known_numbers_are_asked_for(fmt: i32)
    ensures
        0 <= fmt <= 266 ==> format_number(fmt) == fmt,
        fmt < 0 || fmt > 266 ==> format_number(fmt) == -1,
{
}

} // verus!
