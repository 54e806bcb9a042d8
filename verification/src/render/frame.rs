//! The textures that hold a frame, and what is copied into them.
use vstd::prelude::*;

use crate::decoder::format::PixelFormat;

verus! {

/// A texture that holds one plane.
#[derive(Clone, Copy, Debug, PartialEq, Eq, Structural)]
pub struct PlaneTexture {
    /// Bytes for each point: one of brightness or of a colour, or two colours.
    pub components: u8,
    pub width: i32,
    pub height: i32,
}

/// A plane of a frame in memory.
#[derive(Clone, Copy, Debug, PartialEq, Eq, Structural)]
pub struct PlaneData {
    /// Whether there is data.
    pub present: bool,
    /// Bytes from one row to the next.
    pub stride: i32,
}

/// A copy of a plane into its texture.
#[derive(Clone, Copy, Debug, PartialEq, Eq, Structural)]
pub struct Upload {
    /// The number of the texture and of the plane.
    pub texture: usize,
    /// Points from one row to the next.
    pub row_length: i32,
    pub area: PlaneTexture,
}

/// Half of a length, rounded towards zero.
pub open spec fn half(n: i32) -> i32 {
    if n >= 0 {
        (n as int / 2) as i32
    } else {
        (-(-(n as int) / 2)) as i32
    }
}

fn halved(n: i32) -> (r: i32)
    ensures
        r == half(n),
{
    n / 2
}

/// The area of a plane: brightness in full, colours at half the width and height.
pub open spec fn plane_area(width: i32, height: i32, plane: int, components: u8) -> PlaneTexture {
    if plane == 0 {
        PlaneTexture { components, width, height }
    } else {
        PlaneTexture { components, width: half(width), height: half(height) }
    }
}

/// The textures for a frame: one for each plane; none for a format that is not drawn.
pub open spec fn textures_for(format: PixelFormat, width: i32, height: i32) -> Seq<PlaneTexture> {
    match format {
        PixelFormat::Yuv420p => seq![
            plane_area(width, height, 0, 1),
            plane_area(width, height, 1, 1),
            plane_area(width, height, 2, 1),
        ],
        PixelFormat::Nv12 => seq![
            plane_area(width, height, 0, 1),
            plane_area(width, height, 1, 2),
        ],
        _ => seq![],
    }
}

/// The textures to make for frames of that format and size.
pub fn init_textures(format: PixelFormat, width: i32, height: i32) -> (r: Vec<PlaneTexture>)
    ensures
        r@ == textures_for(format, width, height),
{
    let luma = PlaneTexture { components: 1, width, height };
    let (w, h): (i32, i32) = (halved(width), halved(height));
    match format {
        PixelFormat::Yuv420p => vec![
            luma,
            PlaneTexture { components: 1, width: w, height: h },
            PlaneTexture { components: 1, width: w, height: h },
        ],
        PixelFormat::Nv12 => vec![luma, PlaneTexture { components: 2, width: w, height: h }],
        _ => Vec::new(),
    }
}

/// The copy of a plane of one byte for each point.
pub open spec fn plain_upload(width: i32, height: i32, i: int, plane: PlaneData) -> Upload {
    Upload {
        texture: i as usize,
        row_length: plane.stride,
        area: plane_area(width, height, i, 1),
    }
}

/// The copies for a frame of planes of one byte for each point, into the first `n` textures.
/// A plane without data is left out.
pub open spec fn plain_uploads(
    width: i32,
    height: i32,
    planes: Seq<PlaneData>,
    n: nat,
) -> Seq<Upload>
    decreases n,
{
    if n == 0 {
        seq![]
    } else {
        let before = plain_uploads(width, height, planes, (n - 1) as nat);
        if planes[n - 1].present {
            before.push(plain_upload(width, height, n - 1, planes[n - 1]))
        } else {
            before
        }
    }
}

/// The copies for a frame whose colours are in one plane.
pub open spec fn paired_uploads(width: i32, height: i32, planes: Seq<PlaneData>) -> Seq<Upload> {
    let luma = if planes[0].present {
        seq![plain_upload(width, height, 0, planes[0])]
    } else {
        seq![]
    };
    if planes[1].present {
        luma.push(
            Upload {
                texture: 1,
                row_length: half(planes[1].stride),
                area: plane_area(width, height, 1, 2),
            },
        )
    } else {
        luma
    }
}

/// The copies for a frame into `textures` textures.
pub open spec fn uploads_for(
    format: PixelFormat,
    width: i32,
    height: i32,
    planes: Seq<PlaneData>,
    textures: nat,
) -> Seq<Upload> {
    match format {
        PixelFormat::Yuv420p => plain_uploads(width, height, planes, textures),
        PixelFormat::Nv12 => paired_uploads(width, height, planes),
        _ => seq![],
    }
}

/// There is a plane for each texture that is filled, and a texture for each plane.
pub open spec fn can_upload(format: PixelFormat, planes: Seq<PlaneData>, textures: nat) -> bool {
    match format {
        PixelFormat::Yuv420p => textures <= planes.len(),
        PixelFormat::Nv12 => planes.len() >= 2 && (planes[0].present ==> textures >= 1) && (
        planes[1].present ==> textures >= 2),
        _ => true,
    }
}

/// What to copy of a frame into `textures` textures.
pub fn upload_frame(
    format: PixelFormat,
    width: i32,
    height: i32,
    planes: &Vec<PlaneData>,
    textures: usize,
) -> (r: Vec<Upload>)
    requires
        can_upload(format, planes@, textures as nat),
    ensures
        r@ == uploads_for(format, width, height, planes@, textures as nat),
{
    let (w, h): (i32, i32) = (halved(width), halved(height));
    let mut r: Vec<Upload> = Vec::new();
    match format {
        PixelFormat::Yuv420p => {
            let mut i: usize = 0;
            while i < textures
                invariant
                    i <= textures <= planes.len(),
                    w == half(width),
                    h == half(height),
                    r@ == plain_uploads(width, height, planes@, i as nat),
                decreases textures - i,
            {
                if planes[i].present {
                    let area = if i == 0 {
                        PlaneTexture { components: 1, width, height }
                    } else {
                        PlaneTexture { components: 1, width: w, height: h }
                    };
                    r.push(Upload { texture: i, row_length: planes[i].stride, area });
                }
                i += 1;
            }
        },
        PixelFormat::Nv12 => {
            if planes[0].present {
                r.push(
                    Upload {
                        texture: 0,
                        row_length: planes[0].stride,
                        area: PlaneTexture { components: 1, width, height },
                    },
                );
            }
            if planes[1].present {
                r.push(
                    Upload {
                        texture: 1,
                        row_length: halved(planes[1].stride),
                        area: PlaneTexture { components: 2, width: w, height: h },
                    },
                );
            }
        },
        _ => {},
    }
    r
}

proof fn lemma_plain_uploads(width: i32, height: i32, planes: Seq<PlaneData>, n: nat, k: int)
    requires
        n <= planes.len(),
        n <= usize::MAX,
        0 <= k < plain_uploads(width, height, planes, n).len(),
    ensures
        ({
            let u = plain_uploads(width, height, planes, n)[k];
            &&& u.texture < n
            &&& u.area == plane_area(width, height, u.texture as int, 1)
            &&& planes[u.texture as int].present
        }),
    decreases n,
{
    if n > 0 && k < plain_uploads(width, height, planes, (n - 1) as nat).len() {
        lemma_plain_uploads(width, height, planes, (n - 1) as nat, k);
    }
}

/// A frame is copied only into textures that were made for its format and size, each copy
/// filling its texture, and only from planes that hold data.
pub proof fn law_uploads_fill_their_textures(
    format: PixelFormat,
    width: i32,
    height: i32,
    planes: Seq<PlaneData>,
    k: int,
)
    requires
        can_upload(format, planes, textures_for(format, width, height).len()),
        0 <= k < uploads_for(
            format,
            width,
            height,
            planes,
            textures_for(format, width, height).len(),
        ).len(),
    ensures
        ({
            let textures = textures_for(format, width, height);
            let u = uploads_for(format, width, height, planes, textures.len())[k];
            &&& u.texture < textures.len()
            &&& u.area == textures[u.texture as int]
            &&& planes[u.texture as int].present
        }),
{
    if format == PixelFormat::Yuv420p {
        lemma_plain_uploads(width, height, planes, 3, k);
    }
}

/// The copy into a texture, if there is one.
proof fn lemma_plain_uploads_contain(
    width: i32,
    height: i32,
    planes: Seq<PlaneData>,
    n: nat,
    i: int,
)
    requires
        0 <= i < n <= planes.len(),
        n <= usize::MAX,
        planes[i].present,
    ensures
        exists|k: int|
            0 <= k < plain_uploads(width, height, planes, n).len() && (#[trigger] plain_uploads(
                width,
                height,
                planes,
                n,
            )[k]) == plain_upload(width, height, i, planes[i]),
    decreases n,
{
    let all = plain_uploads(width, height, planes, n);
    let before = plain_uploads(width, height, planes, (n - 1) as nat);
    if i == n - 1 {
        assert(all[before.len() as int] == plain_upload(width, height, i, planes[i]));
    } else {
        lemma_plain_uploads_contain(width, height, planes, (n - 1) as nat, i);
        let k = choose|k: int|
            0 <= k < before.len() && (#[trigger] before[k]) == plain_upload(
                width,
                height,
                i,
                planes[i],
            );
        assert(all[k] == before[k]);
    }
}

proof fn lemma_plain_uploads_in_order(
    width: i32,
    height: i32,
    planes: Seq<PlaneData>,
    n: nat,
    a: int,
    b: int,
)
    requires
        n <= planes.len(),
        n <= usize::MAX,
        0 <= a < b < plain_uploads(width, height, planes, n).len(),
    ensures
        plain_uploads(width, height, planes, n)[a].texture < plain_uploads(
            width,
            height,
            planes,
            n,
        )[b].texture,
    decreases n,
{
    let before = plain_uploads(width, height, planes, (n - 1) as nat);
    if b < before.len() {
        lemma_plain_uploads_in_order(width, height, planes, (n - 1) as nat, a, b);
    } else {
        lemma_plain_uploads(width, height, planes, (n - 1) as nat, a);
    }
}

/// Every plane that holds data is copied, just once, into the texture of its number: a plane
/// of brightness in the full size of the frame, one of colours in half of it, with the rows as
/// far apart as the plane says, counted in points.
pub proof fn law_every_plane_is_copied_once(
    format: PixelFormat,
    width: i32,
    height: i32,
    planes: Seq<PlaneData>,
    textures: nat,
    i: int,
)
    requires
        format == PixelFormat::Yuv420p || format == PixelFormat::Nv12,
        can_upload(format, planes, textures),
        textures <= usize::MAX,
        format == PixelFormat::Yuv420p ==> 0 <= i < textures,
        format == PixelFormat::Nv12 ==> 0 <= i < 2,
        planes[i].present,
        width >= 0,
        height >= 0,
        planes[i].stride >= 0,
    ensures
        ({
            let all = uploads_for(format, width, height, planes, textures);
            let pair = format == PixelFormat::Nv12 && i == 1;
            exists|k: int|
                {
                    &&& 0 <= k < all.len()
                    &&& (#[trigger] all[k]).texture == i
                    &&& all[k].row_length as int == if pair {
                        planes[i].stride as int / 2
                    } else {
                        planes[i].stride as int
                    }
                    &&& all[k].area.components as int == if pair {
                        2int
                    } else {
                        1
                    }
                    &&& all[k].area.width as int == if i == 0 {
                        width as int
                    } else {
                        width as int / 2
                    }
                    &&& all[k].area.height as int == if i == 0 {
                        height as int
                    } else {
                        height as int / 2
                    }
                }
        }),
        forall|a: int, b: int|
            #![trigger uploads_for(format, width, height, planes, textures)[a], uploads_for(format, width, height, planes, textures)[b]]
            0 <= a < b < uploads_for(format, width, height, planes, textures).len()
                ==> uploads_for(format, width, height, planes, textures)[a].texture
                < uploads_for(format, width, height, planes, textures)[b].texture,
{
    let all = uploads_for(format, width, height, planes, textures);
    if format == PixelFormat::Yuv420p {
        lemma_plain_uploads_contain(width, height, planes, textures, i);
        let k = choose|k: int|
            0 <= k < all.len() && (#[trigger] all[k]) == plain_upload(width, height, i, planes[i]);
        assert(all[k].texture == i);
        assert forall|a: int, b: int|
            #![trigger uploads_for(format, width, height, planes, textures)[a], uploads_for(format, width, height, planes, textures)[b]]
            0 <= a < b < all.len() implies all[a].texture < all[b].texture by {
            lemma_plain_uploads_in_order(width, height, planes, textures, a, b);
        }
    } else {
        let k: int = if i == 1 && planes[0].present {
            1
        } else {
            0
        };
        assert(all[k].texture == i);
    }
}

/// There is a texture for each plane: one of brightness in the full size of the frame, and
/// those of the colours in half of it, two with one byte for a point or one with two. Formats
/// that are not drawn have none, and nothing is copied of them.
pub proof fn law_textures_for_planes(
    format: PixelFormat,
    width: i32,
    height: i32,
    planes: Seq<PlaneData>,
    textures: nat,
    i: int,
)
    requires
        width >= 0,
        height >= 0,
    ensures
        format == PixelFormat::Yuv420p ==> textures_for(format, width, height).len() == 3,
        format == PixelFormat::Nv12 ==> textures_for(format, width, height).len() == 2,
        format != PixelFormat::Yuv420p && format != PixelFormat::Nv12 ==> textures_for(
            format,
            width,
            height,
        ).len() == 0 && uploads_for(format, width, height, planes, textures).len() == 0,
        0 <= i < textures_for(format, width, height).len() ==> {
            let t = textures_for(format, width, height)[i];
            &&& i == 0 ==> t.width == width && t.height == height && t.components == 1
            &&& i > 0 ==> t.width == width as int / 2 && t.height == height as int / 2
            &&& i > 0 ==> t.components as int == 4 - textures_for(format, width, height).len()
        },
{
}

/// A frame can be copied exactly where a plane is there for each texture, or, for two planes,
/// where both are told and a texture is there for each that has data.
pub proof fn law_when_a_frame_can_be_copied(
    format: PixelFormat,
    planes: Seq<PlaneData>,
    textures: nat,
)
    ensures
        format == PixelFormat::Yuv420p ==> (can_upload(format, planes, textures) <==> planes.len()
            >= textures),
        format == PixelFormat::Nv12 && planes.len() < 2 ==> !can_upload(format, planes, textures),
        format == PixelFormat::Nv12 && planes.len() >= 2 ==> (can_upload(format, planes, textures)
            <==> textures >= 2 || (textures == 1 && !planes[1].present) || (!planes[0].present
            && !planes[1].present)),
        format != PixelFormat::Yuv420p && format != PixelFormat::Nv12 ==> can_upload(
            format,
            planes,
            textures,
        ),
{
}

/// Half of a length loses at most one, towards zero, on both sides of it.
pub proof fn law_half_of_a_length(n: i32)
    ensures
        n >= 0 ==> 0 <= n - 2 * half(n) <= 1,
        n < 0 ==> -1 <= n - 2 * half(n) <= 0,
        n < 0 ==> half(n) <= 0,
{
}

} // verus!
