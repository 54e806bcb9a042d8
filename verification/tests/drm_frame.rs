use waywall::drm_frame::{
    can_number_planes, has_known_objects, plane_requests, DrmFrame, DrmObject, FrameDescriptor, LayerDescriptor,
    MapError, PlaneDescriptor,
};

fn plane(object_index: i32, offset: i64, pitch: i64) -> PlaneDescriptor {
    PlaneDescriptor { object_index, offset, pitch }
}

fn descriptor() -> FrameDescriptor {
    FrameDescriptor {
        objects: vec![
            DrmObject { fd: 10, size: 4096, format_modifier: 0x0300_0000_0060_6014 },
            DrmObject { fd: 11, size: 2048, format_modifier: 0 },
        ],
        layers: vec![
            LayerDescriptor { format: 0x20203852, planes: vec![plane(0, 0, 2048)] },
            LayerDescriptor { format: 0x38385247, planes: vec![plane(1, 64, 1024), plane(0, 8, 16)] },
        ],
    }
}

#[test]
fn a_frame_is_described_plane_by_plane() {
    let f = DrmFrame::map(true, 0, &Some(descriptor()), 1920, 1080, 7).ok().unwrap();
    assert_eq!((f.width, f.height, f.format, f.va_surface_id), (1920, 1080, 0x20203852, 7));
    let p = f.layers[0].planes[0];
    assert_eq!((p.fd, p.offset, p.stride), (10, 0, 2048));
    assert_eq!((p.modifier_hi, p.modifier_lo), (0x0300_0000, 0x0060_6014));
    assert_eq!(p.modifier, 0x0300_0000_0060_6014);
}

#[test]
fn planes_are_numbered_through_all_layers() {
    let f = DrmFrame::map(true, 0, &Some(descriptor()), 64, 32, 0).ok().unwrap();
    assert!(can_number_planes(&f));
    let r = plane_requests(&f);
    assert_eq!(r.iter().map(|p| p.plane_idx).collect::<Vec<_>>(), vec![0, 1, 2]);
    assert_eq!(r.iter().map(|p| p.fd).collect::<Vec<_>>(), vec![10, 11, 10]);
    assert_eq!(r[1].offset, 64);
    assert_eq!(r[2].stride, 16);
}

#[test]
fn failures_to_map() {
    let err = |a, ret, d: Option<FrameDescriptor>| DrmFrame::map(a, ret, &d, 1, 1, 0).err().unwrap();
    assert_eq!(err(false, 0, None), MapError::AllocFailed);
    assert_eq!(err(true, -12, None), MapError::MapFailed(-12));
    assert_eq!(err(true, 0, None), MapError::NoDescriptor);
    let mut bad = descriptor();
    bad.layers[1].planes[0].object_index = 2;
    assert!(!has_known_objects(&bad));
    assert_eq!(err(true, 0, Some(bad)), MapError::ObjectIndexOutOfRange);
    let mut negative = descriptor();
    negative.layers[0].planes[0].object_index = -1;
    assert_eq!(err(true, 0, Some(negative)), MapError::ObjectIndexOutOfRange);
    let mut none = descriptor();
    none.layers.clear();
    assert!(has_known_objects(&none));
    assert_eq!(err(true, 0, Some(none)), MapError::NoLayers);
}

#[test]
fn only_a_missing_frame_leaves_nothing_to_free() {
    assert!(!MapError::AllocFailed.frees_frame());
    assert!(MapError::MapFailed(-1).frees_frame());
    assert!(MapError::NoLayers.frees_frame());
}

#[test]
fn what_is_said_of_a_frame_that_cannot_be_mapped() {
    assert_eq!(MapError::MapFailed(-22).text(), "av_hwframe_map to DRM_PRIME failed: -22");
    assert_eq!(MapError::AllocFailed.text(), "av_frame_alloc failed for DRM mapping");
    assert_eq!(MapError::NoLayers.text(), "No DRM layers found in descriptor");
}
