//! Frames as DRM planes that a compositor can import.
use vstd::prelude::*;

use crate::text;

verus! {

/// A memory object of a mapped frame.
#[derive(Clone, Copy, Debug, PartialEq, Eq, Structural)]
pub struct DrmObject {
    pub fd: i32,
    pub size: u64,
    pub format_modifier: u64,
}

/// A plane of a mapped frame, as the mapping describes it.
#[derive(Clone, Copy, Debug, PartialEq, Eq, Structural)]
pub struct PlaneDescriptor {
    pub object_index: i32,
    pub offset: i64,
    pub pitch: i64,
}

/// A layer of a mapped frame, as the mapping describes it.
pub struct LayerDescriptor {
    pub format: u32,
    pub planes: Vec<PlaneDescriptor>,
}

/// A mapped frame, as the mapping describes it.
pub struct FrameDescriptor {
    pub objects: Vec<DrmObject>,
    pub layers: Vec<LayerDescriptor>,
}

#[derive(Clone, Copy, Debug, PartialEq, Eq, Structural)]
pub struct DrmPlane {
    pub fd: i32,
    pub offset: u32,
    pub stride: u32,
    pub modifier_lo: u32,
    pub modifier_hi: u32,
    pub modifier: u64,
}

pub struct DrmLayer {
    pub format: u32,
    pub planes: Vec<DrmPlane>,
}

pub struct DrmFrame {
    pub layers: Vec<DrmLayer>,
    pub width: i32,
    pub height: i32,
    pub format: u32,
    pub va_surface_id: u64,
}

/// The contents of a [`DrmLayer`].
pub struct LayerModel {
    pub format: u32,
    pub planes: Seq<DrmPlane>,
}

/// The contents of a [`DrmFrame`].
pub struct FrameModel {
    pub layers: Seq<LayerModel>,
    pub width: i32,
    pub height: i32,
    pub format: u32,
    pub va_surface_id: u64,
}

/// Why a frame could not be mapped.
#[derive(Clone, Copy, Debug, PartialEq, Eq, Structural)]
pub enum MapError {
    /// There is no frame to map into.
    AllocFailed,
    /// The mapping failed with this code.
    MapFailed(i32),
    /// The mapping gave no descriptor.
    NoDescriptor,
    /// A plane names an object that is not there.
    ObjectIndexOutOfRange,
    /// The descriptor has no layers.
    NoLayers,
}

pub open spec fn layer_model(l: DrmLayer) -> LayerModel {
    LayerModel { format: l.format, planes: l.planes@ }
}

impl View for DrmFrame {
    type V = FrameModel;

    open spec fn view(&self) -> FrameModel {
        FrameModel {
            layers: Seq::new(self.layers@.len(), |i: int| layer_model(self.layers@[i])),
            width: self.width,
            height: self.height,
            format: self.format,
            va_surface_id: self.va_surface_id,
        }
    }
}

/// Whether the plane names one of `count` objects.
pub open spec fn names_object(p: PlaneDescriptor, count: nat) -> bool {
    0 <= p.object_index < count
}

/// Whether every plane of the layer names one of `count` objects.
pub open spec fn layer_names_objects(l: LayerDescriptor, count: nat) -> bool {
    forall|j: int| 0 <= j < l.planes@.len() ==> names_object(#[trigger] l.planes@[j], count)
}

/// Whether every plane of every layer names an object that is there.
pub open spec fn objects_in_range(d: FrameDescriptor) -> bool {
    forall|i: int|
        0 <= i < d.layers@.len() ==> layer_names_objects(#[trigger] d.layers@[i], d.objects@.len())
}

/// The plane that a descriptor and its object mean. Offset and pitch are cut to 32
/// bits; the modifier comes whole and in halves.
pub open spec fn plane_model(p: PlaneDescriptor, o: DrmObject) -> DrmPlane {
    DrmPlane {
        fd: o.fd,
        offset: p.offset as u32,
        stride: p.pitch as u32,
        modifier_lo: (o.format_modifier % 0x1_0000_0000) as u32,
        modifier_hi: (o.format_modifier / 0x1_0000_0000) as u32,
        modifier: o.format_modifier,
    }
}

pub open spec fn described_layer(l: LayerDescriptor, objects: Seq<DrmObject>) -> LayerModel {
    LayerModel {
        format: l.format,
        planes: Seq::new(
            l.planes@.len(),
            |j: int| plane_model(l.planes@[j], objects[l.planes@[j].object_index as int]),
        ),
    }
}

pub open spec fn described_layers(d: FrameDescriptor) -> Seq<LayerModel> {
    Seq::new(d.layers@.len(), |i: int| described_layer(d.layers@[i], d.objects@))
}

/// What mapping a frame comes to. `allocated` says whether there is a frame to map
/// into, `map_ret` what the mapping returned and `desc` what it described.
pub open spec fn mapped(
    allocated: bool,
    map_ret: i32,
    desc: Option<FrameDescriptor>,
    width: i32,
    height: i32,
    va_surface_id: u64,
) -> Result<FrameModel, MapError> {
    if !allocated {
        Err(MapError::AllocFailed)
    } else if map_ret < 0 {
        Err(MapError::MapFailed(map_ret))
    } else {
        match desc {
            None => Err(MapError::NoDescriptor),
            Some(d) => if !objects_in_range(d) {
                Err(MapError::ObjectIndexOutOfRange)
            } else if d.layers@.len() == 0 {
                Err(MapError::NoLayers)
            } else {
                Ok(
                    FrameModel {
                        layers: described_layers(d),
                        width,
                        height,
                        format: d.layers@[0].format,
                        va_surface_id,
                    },
                )
            },
        }
    }
}

/// The contents of the outcome of a mapping.
pub open spec fn mapped_view(r: Result<DrmFrame, MapError>) -> Result<FrameModel, MapError> {
    match r {
        Ok(f) => Ok(f@),
        Err(e) => Err(e),
    }
}

impl MapError {
    /// Whether the frame that was mapped into has to be freed: every failure but that
    /// to allocate it leaves one behind.
    pub fn frees_frame(&self) -> (r: bool)
        ensures
            r == !(self is AllocFailed),
    {
        match self {
            MapError::AllocFailed => false,
            _ => true,
        }
    }

    /// What is said of the failure.
    pub open spec fn text_of(self) -> Seq<char> {
        match self {
            MapError::AllocFailed => "av_frame_alloc failed for DRM mapping"@,
            MapError::MapFailed(ret) => "av_hwframe_map to DRM_PRIME failed: "@
                + text::signed_decimal(ret as int),
            MapError::NoDescriptor => "AVDRMFrameDescriptor is null after map"@,
            MapError::ObjectIndexOutOfRange => "plane object_index out of range"@,
            MapError::NoLayers => "No DRM layers found in descriptor"@,
        }
    }

    /// What to say of the failure.
    pub fn text(&self) -> (r: String)
        ensures
            r@ == self.text_of(),
    {
        match *self {
            MapError::AllocFailed => "av_frame_alloc failed for DRM mapping".to_string(),
            MapError::MapFailed(ret) => {
                let mut s = "av_hwframe_map to DRM_PRIME failed: ".to_string();
                text::push_signed(&mut s, ret);
                s
            },
            MapError::NoDescriptor => "AVDRMFrameDescriptor is null after map".to_string(),
            MapError::ObjectIndexOutOfRange => "plane object_index out of range".to_string(),
            MapError::NoLayers => "No DRM layers found in descriptor".to_string(),
        }
    }
}

fn halves(modifier: u64) -> (r: (u32, u32))
    ensures
        r.0 as int == modifier % 0x1_0000_0000,
        r.1 as int == modifier / 0x1_0000_0000,
{
    assert(modifier & 0xffff_ffff == modifier % 0x1_0000_0000) by (bit_vector);
    assert((modifier >> 32) & 0xffff_ffff == modifier / 0x1_0000_0000) by (bit_vector);
    ((modifier & 0xffff_ffff) as u32, ((modifier >> 32) & 0xffff_ffff) as u32)
}

/// The planes of one layer; `None` where one names an object that is not there.
fn map_layer(l: &LayerDescriptor, objects: &Vec<DrmObject>) -> (r: Option<DrmLayer>)
    ensures
        r is Some <==> layer_names_objects(*l, objects@.len()),
        r matches Some(layer) ==> layer_model(layer) == described_layer(*l, objects@),
{
    let mut planes: Vec<DrmPlane> = Vec::new();
    let mut j: usize = 0;
    while j < l.planes.len()
        invariant
            j <= l.planes.len(),
            planes@ == described_layer(*l, objects@).planes.take(j as int),
            forall|k: int| 0 <= k < j ==> names_object(#[trigger] l.planes@[k], objects@.len()),
        decreases l.planes.len() - j,
    {
        let p: PlaneDescriptor = l.planes[j];
        if p.object_index < 0 || p.object_index as usize >= objects.len() {
            assert(!names_object(l.planes@[j as int], objects@.len()));
            return None;
        }
        let o: DrmObject = objects[p.object_index as usize];
        let (lo, hi) = halves(o.format_modifier);
        planes.push(
            DrmPlane {
                fd: o.fd,
                offset: p.offset as u32,
                stride: p.pitch as u32,
                modifier_lo: lo,
                modifier_hi: hi,
                modifier: o.format_modifier,
            },
        );
        assert(planes@ =~= described_layer(*l, objects@).planes.take(j + 1));
        j += 1;
    }
    assert(planes@ =~= described_layer(*l, objects@).planes);
    Some(DrmLayer { format: l.format, planes })
}

/// Whether every plane of every layer names an object that is there.
pub fn has_known_objects(d: &FrameDescriptor) -> (r: bool)
    ensures
        r == objects_in_range(*d),
{
    let mut i: usize = 0;
    while i < d.layers.len()
        invariant
            i <= d.layers.len(),
            forall|k: int|
                0 <= k < i ==> layer_names_objects(#[trigger] d.layers@[k], d.objects@.len()),
        decreases d.layers.len() - i,
    {
        if map_layer(&d.layers[i], &d.objects).is_none() {
            assert(!layer_names_objects(d.layers@[i as int], d.objects@.len()));
            return false;
        }
        i += 1;
    }
    true
}

impl DrmFrame {
    /// What mapping a frame comes to. `allocated` says whether there is a frame to map
    /// into, `map_ret` what the mapping returned and `desc` what it described; the
    /// size and the surface are those of the frame that was mapped.
    pub fn map(
        allocated: bool,
        map_ret: i32,
        desc: &Option<FrameDescriptor>,
        width: i32,
        height: i32,
        va_surface_id: u64,
    ) -> (r: Result<DrmFrame, MapError>)
        ensures
            mapped_view(r) == mapped(allocated, map_ret, *desc, width, height, va_surface_id),
    {
        if !allocated {
            return Err(MapError::AllocFailed);
        }
        if map_ret < 0 {
            return Err(MapError::MapFailed(map_ret));
        }
        let d: &FrameDescriptor = match desc {
            Some(d) => d,
            None => return Err(MapError::NoDescriptor),
        };
        let mut layers: Vec<DrmLayer> = Vec::new();
        let mut i: usize = 0;
        while i < d.layers.len()
            invariant
                i <= d.layers.len(),
                layers@.len() == i,
                forall|k: int|
                    0 <= k < i ==> layer_model(#[trigger] layers@[k]) == described_layer(
                        d.layers@[k],
                        d.objects@,
                    ),
                forall|k: int|
                    0 <= k < i ==> layer_names_objects(#[trigger] d.layers@[k], d.objects@.len()),
                allocated,
                map_ret >= 0,
                *desc == Some(*d),
            decreases d.layers.len() - i,
        {
            match map_layer(&d.layers[i], &d.objects) {
                Some(layer) => layers.push(layer),
                None => {
                    assert(!layer_names_objects(d.layers@[i as int], d.objects@.len()));
                    return Err(MapError::ObjectIndexOutOfRange);
                },
            }
            i += 1;
        }
        if layers.len() == 0 {
            return Err(MapError::NoLayers);
        }
        let format: u32 = d.layers[0].format;
        let frame = DrmFrame { layers, width, height, format, va_surface_id };
        assert(frame@.layers =~= described_layers(*d));
        Ok(frame)
    }
}

/// The two halves of a modifier make up the whole.
pub proof fn law_modifier_halves(p: PlaneDescriptor, o: DrmObject)
    ensures
        plane_model(p, o).modifier_hi * 0x1_0000_0000 + plane_model(p, o).modifier_lo
            == o.format_modifier,
{
}

/// A mapped frame has at least one layer, and its format is that of the first.
pub proof fn law_mapped_frame_has_layers(
    allocated: bool,
    map_ret: i32,
    desc: Option<FrameDescriptor>,
    width: i32,
    height: i32,
    va_surface_id: u64,
)
    ensures
        mapped(allocated, map_ret, desc, width, height, va_surface_id) matches Ok(f)
            ==> f.layers.len() > 0 && f.format == f.layers[0].format,
{
}

// ---------------------------------------------------------------------------
// Handing planes to the compositor

/// One plane as the compositor is told of it.
#[derive(Clone, Copy, Debug, PartialEq, Eq, Structural)]
pub struct PlaneRequest {
    pub fd: i32,
    pub plane_idx: u32,
    pub offset: u32,
    pub stride: u32,
    pub modifier_hi: u32,
    pub modifier_lo: u32,
}

/// All planes of a frame, layer after layer.
pub open spec fn all_planes(layers: Seq<LayerModel>) -> Seq<DrmPlane>
    decreases layers.len(),
{
    if layers.len() == 0 {
        seq![]
    } else {
        all_planes(layers.drop_last()) + layers.last().planes
    }
}

pub open spec fn request_for(p: DrmPlane, idx: int) -> PlaneRequest {
    PlaneRequest {
        fd: p.fd,
        plane_idx: idx as u32,
        offset: p.offset,
        stride: p.stride,
        modifier_hi: p.modifier_hi,
        modifier_lo: p.modifier_lo,
    }
}

/// The requests for the planes of a frame: numbered through all layers.
pub open spec fn requests_for(f: FrameModel) -> Seq<PlaneRequest> {
    Seq::new(all_planes(f.layers).len(), |k: int| request_for(all_planes(f.layers)[k], k))
}

proof fn lemma_planes_prefix(layers: Seq<LayerModel>, n: int)
    requires
        0 <= n <= layers.len(),
    ensures
        all_planes(layers.take(n)).len() <= all_planes(layers).len(),
        all_planes(layers).take(all_planes(layers.take(n)).len() as int) == all_planes(
            layers.take(n),
        ),
    decreases layers.len(),
{
    if n == layers.len() {
        assert(layers.take(n) =~= layers);
        assert(all_planes(layers).take(all_planes(layers).len() as int) =~= all_planes(layers));
    } else {
        lemma_planes_prefix(layers.drop_last(), n);
        assert(layers.drop_last().take(n) =~= layers.take(n));
        let m = all_planes(layers.take(n)).len() as int;
        assert(all_planes(layers).take(m) =~= all_planes(layers.drop_last()).take(m));
    }
}

/// Whether the planes of `frame` can be numbered; [`plane_requests`] asks for this.
pub fn can_number_planes(frame: &DrmFrame) -> (r: bool)
    ensures
        r == (all_planes(frame@.layers).len() <= u32::MAX),
{
    let ghost layers = frame@.layers;
    let mut total: u32 = 0;
    let mut i: usize = 0;
    while i < frame.layers.len()
        invariant
            i <= frame.layers.len(),
            layers == frame@.layers,
            total == all_planes(layers.take(i as int)).len(),
        decreases frame.layers.len() - i,
    {
        let count: usize = frame.layers[i].planes.len();
        proof {
            lemma_planes_prefix(layers, i + 1);
            assert(layers.take(i + 1).drop_last() =~= layers.take(i as int));
            assert(layers.take(i + 1).last() == layer_model(frame.layers@[i as int]));
        }
        if count as u64 > (u32::MAX - total) as u64 {
            return false;
        }
        total = total + count as u32;
        i += 1;
    }
    assert(layers.take(i as int) =~= layers);
    true
}

/// The requests for the planes of `frame`, numbered through all layers.
pub fn plane_requests(frame: &DrmFrame) -> (r: Vec<PlaneRequest>)
    requires
        all_planes(frame@.layers).len() <= u32::MAX,
    ensures
        r@ == requests_for(frame@),
{
    let ghost layers = frame@.layers;
    let ghost whole = requests_for(frame@);
    let mut r: Vec<PlaneRequest> = Vec::new();
    let mut plane_idx: u32 = 0;
    let mut i: usize = 0;
    while i < frame.layers.len()
        invariant
            i <= frame.layers.len(),
            layers == frame@.layers,
            whole == requests_for(frame@),
            all_planes(layers).len() <= u32::MAX,
            plane_idx == all_planes(layers.take(i as int)).len(),
            plane_idx <= whole.len(),
            r@ == whole.take(plane_idx as int),
        decreases frame.layers.len() - i,
    {
        let planes: &Vec<DrmPlane> = &frame.layers[i].planes;
        let ghost start = plane_idx as int;
        proof {
            lemma_planes_prefix(layers, i + 1);
            assert(layers.take(i + 1).drop_last() =~= layers.take(i as int));
            assert(layers.take(i + 1).last() == layer_model(frame.layers@[i as int]));
            let upto = all_planes(layers.take(i + 1));
            assert(upto == all_planes(layers.take(i as int)) + planes@);
            assert forall|k: int| 0 <= k < planes@.len() implies all_planes(layers)[start + k]
                == #[trigger] planes@[k] by {
                assert(all_planes(layers).take(upto.len() as int)[start + k] == upto[start + k]);
            }
        }
        let mut j: usize = 0;
        while j < planes.len()
            invariant
                j <= planes.len(),
                whole == requests_for(frame@),
                layers == frame@.layers,
                whole.len() <= u32::MAX,
                start + planes@.len() <= whole.len(),
                plane_idx == start + j,
                r@ == whole.take(start + j),
                forall|k: int|
                    0 <= k < planes@.len() ==> all_planes(layers)[start + k] == #[trigger] planes@[k],
            decreases planes.len() - j,
        {
            let p: DrmPlane = planes[j];
            r.push(
                PlaneRequest {
                    fd: p.fd,
                    plane_idx,
                    offset: p.offset,
                    stride: p.stride,
                    modifier_hi: p.modifier_hi,
                    modifier_lo: p.modifier_lo,
                },
            );
            assert(r@ =~= whole.take(start + j + 1));
            plane_idx = plane_idx + 1;
            j += 1;
        }
        i += 1;
    }
    assert(layers.take(i as int) =~= layers);
    assert(whole.take(plane_idx as int) =~= whole);
    r
}

/// Planes are numbered from zero without gaps, and the number tells which plane of
/// the frame is meant.
pub proof fn law_planes_are_numbered(f: FrameModel, k: int)
    requires
        0 <= k < all_planes(f.layers).len() <= u32::MAX,
    ensures
        requests_for(f).len() == all_planes(f.layers).len(),
        requests_for(f)[k].plane_idx == k,
        requests_for(f)[k].fd == all_planes(f.layers)[k].fd,
{
}

/// What is handed to the compositor of the `j`-th plane of the `i`-th layer of a mapped frame
/// is what the mapping described: the descriptor and modifier of the plane's object, and the
/// plane's own offset and pitch, in the place that the plane has among all planes.
pub proof fn law_requests_describe_the_mapping(
    d: FrameDescriptor,
    width: i32,
    height: i32,
    va_surface_id: u64,
    f: FrameModel,
    i: int,
    j: int,
    before: nat,
)
    requires
        mapped(true, 0, Some(d), width, height, va_surface_id) == Ok::<FrameModel, MapError>(f),
        0 <= i < d.layers@.len(),
        0 <= j < d.layers@[i].planes@.len(),
        before == planes_before(d, i),
        planes_before(d, d.layers@.len() as int) <= u32::MAX,
    ensures
        requests_for(f).len() == planes_before(d, d.layers@.len() as int),
        before + j < requests_for(f).len(),
        0 <= d.layers@[i].planes@[j].object_index < d.objects@.len(),
        ({
            let p = d.layers@[i].planes@[j];
            let o = d.objects@[p.object_index as int];
            let r = requests_for(f)[before + j];
            &&& r.plane_idx == before + j
            &&& r.fd == o.fd
            &&& r.modifier_hi * 0x1_0000_0000 + r.modifier_lo == o.format_modifier
            &&& 0 <= p.offset <= u32::MAX ==> r.offset == p.offset
            &&& 0 <= p.pitch <= u32::MAX ==> r.stride == p.pitch
        }),
        f.width == width,
        f.height == height,
        f.format == d.layers@[0].format,
        f.va_surface_id == va_surface_id,
{
    assert(objects_in_range(d));
    assert(layer_names_objects(d.layers@[i], d.objects@.len()));
    assert(names_object(d.layers@[i].planes@[j], d.objects@.len()));
    lemma_described_planes(d, i, j);
    lemma_described_planes_len(d, d.layers@.len() as int);
    assert(described_layers(d).take(d.layers@.len() as int) =~= described_layers(d));
}

/// The number of planes of the first `n` layers of a descriptor.
pub open spec fn planes_before(d: FrameDescriptor, n: int) -> nat
    decreases n,
{
    if n <= 0 {
        0
    } else {
        planes_before(d, n - 1) + d.layers@[n - 1].planes@.len()
    }
}

proof fn lemma_described_planes_len(d: FrameDescriptor, n: int)
    requires
        0 <= n <= d.layers@.len(),
    ensures
        all_planes(described_layers(d).take(n)).len() == planes_before(d, n),
    decreases n,
{
    if n > 0 {
        lemma_described_planes_len(d, n - 1);
        assert(described_layers(d).take(n).drop_last() =~= described_layers(d).take(n - 1));
    }
}

proof fn lemma_described_planes(d: FrameDescriptor, i: int, j: int)
    requires
        0 <= i < d.layers@.len(),
        0 <= j < d.layers@[i].planes@.len(),
    ensures
        planes_before(d, i) + j < all_planes(described_layers(d)).len(),
        all_planes(described_layers(d))[planes_before(d, i) + j] == plane_model(
            d.layers@[i].planes@[j],
            d.objects@[d.layers@[i].planes@[j].object_index as int],
        ),
{
    let layers = described_layers(d);
    lemma_described_planes_len(d, i);
    lemma_planes_prefix(layers, i + 1);
    assert(layers.take(i + 1).drop_last() =~= layers.take(i));
    let upto = all_planes(layers.take(i + 1));
    let k = planes_before(d, i) + j;
    assert(upto[k] == layers[i].planes[j]);
    assert(all_planes(layers).take(upto.len() as int)[k] == upto[k]);
}

/// A frame is mapped exactly where there is a frame to map into, the mapping succeeded and
/// described layers whose planes all name objects that are there; the first thing that is
/// missing is what is told.
pub proof fn law_frame_is_mapped_or_told_why(
    allocated: bool,
    map_ret: i32,
    desc: Option<FrameDescriptor>,
    width: i32,
    height: i32,
    va_surface_id: u64,
)
    ensures
        ({
            let r = mapped(allocated, map_ret, desc, width, height, va_surface_id);
            let known = desc matches Some(d) && forall|i: int, j: int|
                #![trigger d.layers@[i].planes@[j]]
                0 <= i < d.layers@.len() && 0 <= j < d.layers@[i].planes@.len() ==> 0
                    <= d.layers@[i].planes@[j].object_index < d.objects@.len();
            &&& !allocated <==> r == Err::<FrameModel, MapError>(MapError::AllocFailed)
            &&& allocated && map_ret < 0 <==> r == Err::<FrameModel, MapError>(
                MapError::MapFailed(map_ret),
            )
            &&& allocated && map_ret >= 0 && desc is None <==> r == Err::<FrameModel, MapError>(
                MapError::NoDescriptor,
            )
            &&& allocated && map_ret >= 0 && desc is Some && !known <==> r == Err::<
                FrameModel,
                MapError,
            >(MapError::ObjectIndexOutOfRange)
            &&& allocated && map_ret >= 0 && known && desc->0.layers@.len() == 0 <==> r == Err::<
                FrameModel,
                MapError,
            >(MapError::NoLayers)
            &&& allocated && map_ret >= 0 && known && desc->0.layers@.len() > 0 <==> r is Ok
        }),
{
    if desc is Some {
        let d = desc->0;
        let known = forall|i: int, j: int|
            #![trigger d.layers@[i].planes@[j]]
            0 <= i < d.layers@.len() && 0 <= j < d.layers@[i].planes@.len() ==> 0
                <= d.layers@[i].planes@[j].object_index < d.objects@.len();
        if known {
            assert forall|i: int| 0 <= i < d.layers@.len() implies layer_names_objects(
                #[trigger] d.layers@[i],
                d.objects@.len(),
            ) by {
                assert forall|j: int| 0 <= j < d.layers@[i].planes@.len() implies names_object(
                    #[trigger] d.layers@[i].planes@[j],
                    d.objects@.len(),
                ) by {}
            }
        }
        if objects_in_range(d) {
            assert forall|i: int, j: int|
                #![trigger d.layers@[i].planes@[j]]
                0 <= i < d.layers@.len() && 0 <= j < d.layers@[i].planes@.len() implies 0
                <= d.layers@[i].planes@[j].object_index < d.objects@.len() by {
                assert(layer_names_objects(d.layers@[i], d.objects@.len()));
                assert(names_object(d.layers@[i].planes@[j], d.objects@.len()));
            }
        }
    }
}

/// A mapped frame has the layers of its description, each with its format and its number of
/// planes.
pub proof fn law_mapped_layers_are_those_described(
    d: FrameDescriptor,
    width: i32,
    height: i32,
    va_surface_id: u64,
    f: FrameModel,
    i: int,
    j: int,
)
    requires
        mapped(true, 0, Some(d), width, height, va_surface_id) == Ok::<FrameModel, MapError>(f),
        0 <= i < d.layers@.len(),
        0 <= j < d.layers@[i].planes@.len(),
    ensures
        f.layers.len() == d.layers@.len(),
        f.layers[i].format == d.layers@[i].format,
        f.layers[i].planes.len() == d.layers@[i].planes@.len(),
        ({
            let p = d.layers@[i].planes@[j];
            let o = d.objects@[p.object_index as int];
            let r = f.layers[i].planes[j];
            &&& r.fd == o.fd
            &&& r.modifier == o.format_modifier
            &&& r.modifier_hi * 0x1_0000_0000 + r.modifier_lo == o.format_modifier
            &&& 0 <= p.offset <= u32::MAX ==> r.offset == p.offset
            &&& 0 <= p.pitch <= u32::MAX ==> r.stride == p.pitch
        }),
{
}

/// Every plane names an object that is there exactly where none of them does not.
pub proof fn lemma_objects_in_range(d: FrameDescriptor)
    ensures
        objects_in_range(d) <==> !(exists|i: int, j: int|
            #![trigger d.layers@[i].planes@[j]]
            0 <= i < d.layers@.len() && 0 <= j < d.layers@[i].planes@.len() && !(0
                <= d.layers@[i].planes@[j].object_index < d.objects@.len())),
{
    if objects_in_range(d) {
        assert forall|i: int, j: int|
            #![trigger d.layers@[i].planes@[j]]
            0 <= i < d.layers@.len() && 0 <= j < d.layers@[i].planes@.len() implies 0
            <= d.layers@[i].planes@[j].object_index < d.objects@.len() by {
            assert(layer_names_objects(d.layers@[i], d.objects@.len()));
            assert(names_object(d.layers@[i].planes@[j], d.objects@.len()));
        }
    } else {
        let i = choose|i: int|
            0 <= i < d.layers@.len() && !layer_names_objects(
                #[trigger] d.layers@[i],
                d.objects@.len(),
            );
        let j = choose|j: int|
            0 <= j < d.layers@[i].planes@.len() && !names_object(
                #[trigger] d.layers@[i].planes@[j],
                d.objects@.len(),
            );
        assert(!names_object(d.layers@[i].planes@[j], d.objects@.len()));
    }
}

/// What is said of a mapping that failed; where the library refused it, with the library's code.
pub proof fn law_failed_mapping_is_told(ret: i32)
    ensures
        MapError::AllocFailed.text_of() == "av_frame_alloc failed for DRM mapping"@,
        MapError::MapFailed(ret).text_of() == "av_hwframe_map to DRM_PRIME failed: "@
            + text::signed_decimal(ret as int),
        MapError::NoDescriptor.text_of() == "AVDRMFrameDescriptor is null after map"@,
        MapError::ObjectIndexOutOfRange.text_of() == "plane object_index out of range"@,
        MapError::NoLayers.text_of() == "No DRM layers found in descriptor"@,
{
}

} // verus!
