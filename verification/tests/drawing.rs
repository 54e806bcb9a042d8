use waywall::decoder::format::PixelFormat;
use waywall::render::frame::{init_textures, upload_frame, PlaneData, PlaneTexture, Upload};
use waywall::render::state::RenderState;
use waywall::shader::{Shader, UniformBinding};

fn texture(components: u8, width: i32, height: i32) -> PlaneTexture {
    PlaneTexture { components, width, height }
}

fn plane(present: bool, stride: i32) -> PlaneData {
    PlaneData { present, stride }
}

#[test]
fn a_texture_for_each_plane() {
    assert_eq!(
        init_textures(PixelFormat::Yuv420p, 1921, 1080),
        vec![texture(1, 1921, 1080), texture(1, 960, 540), texture(1, 960, 540)]
    );
    assert_eq!(
        init_textures(PixelFormat::Nv12, 640, 361),
        vec![texture(1, 640, 361), texture(2, 320, 180)]
    );
    assert!(init_textures(PixelFormat::P010le, 640, 360).is_empty());
}

#[test]
fn planes_are_copied_row_by_row() {
    let planes = vec![plane(true, 704), plane(false, 0), plane(true, 352)];
    assert_eq!(
        upload_frame(PixelFormat::Yuv420p, 640, 360, &planes, 3),
        vec![
            Upload { texture: 0, row_length: 704, area: texture(1, 640, 360) },
            Upload { texture: 2, row_length: 352, area: texture(1, 320, 180) },
        ]
    );
    let planes = vec![plane(true, 704), plane(true, 705)];
    assert_eq!(
        upload_frame(PixelFormat::Nv12, 640, 360, &planes, 2),
        vec![
            Upload { texture: 0, row_length: 704, area: texture(1, 640, 360) },
            Upload { texture: 1, row_length: 352, area: texture(2, 320, 180) },
        ]
    );
    assert!(upload_frame(PixelFormat::Vaapi, 640, 360, &planes, 0).is_empty());
}

#[test]
fn negative_lengths_halve_towards_zero() {
    let planes = vec![plane(false, 0), plane(true, -705)];
    assert_eq!(
        upload_frame(PixelFormat::Nv12, -3, 4, &planes, 2),
        vec![Upload { texture: 1, row_length: -352, area: texture(2, -1, 2) }]
    );
}

#[test]
fn texture_units_follow_the_planes() {
    let b = |location, unit| UniformBinding { location, unit };
    assert_eq!(
        Shader::new_yuv420p(1, 4, 5, 6).use_program(),
        vec![b(4, 0), b(5, 1), b(6, 2)]
    );
    assert_eq!(Shader::new_nv12(1, 4, -1, -1).use_program(), vec![b(4, 0), b(-1, 1)]);
}

#[test]
fn a_window_takes_a_new_size() {
    let mut r = RenderState { width: 1, height: 2 };
    r.resize(30, 40);
    assert_eq!((r.width, r.height), (30, 40));
}
