use waywall::drm_node::{
    can_resolve, can_resolve_device, card_fits, card_number, ensure_render_node, fallback_path,
    file_name, is_render_node, major_of, minor_of, parse_dev_t, render_node_from_dev_t,
    render_node_from_drm_node, render_node_from_main_device, say_unmapped, say_unresolved,
    ClassEntry, DriNode, DrmTree, NodeError,
};

fn node(path: &str, rdev: u64, device: &str) -> DriNode {
    DriNode {
        path: path.to_string(),
        rdev: Some(rdev),
        device: Some(device.to_string()),
    }
}

fn entry(name: &str, dev: &str, device: &str) -> ClassEntry {
    ClassEntry {
        name: name.to_string(),
        dev: Some(dev.to_string()),
        device: Some(device.to_string()),
    }
}

fn tree() -> DrmTree {
    DrmTree {
        dri: Some(vec![
            node("/dev/dri/card0", 0xe200, "/sys/pci/gpu"),
            node("/dev/dri/renderD128", 0xe280, "/sys/pci/gpu"),
        ]),
        class: Some(vec![
            entry("card0", "226:0", "/sys/pci/gpu"),
            entry("renderD128", "226:128", "/sys/pci/gpu"),
        ]),
        existing: vec!["/dev/dri/card0".to_string(), "/dev/dri/renderD128".to_string()],
    }
}

fn path(r: Result<String, NodeError>) -> String {
    match r {
        Ok(p) => p,
        Err(_) => panic!("no node"),
    }
}

#[test]
fn device_numbers_come_in_the_byte_order_of_the_machine() {
    assert_eq!(parse_dev_t(&0x1234_5678u32.to_ne_bytes()).unwrap(), 0x1234_5678);
    assert_eq!(
        parse_dev_t(&0x1122_3344_5566_7788u64.to_ne_bytes()).unwrap(),
        0x1122_3344_5566_7788
    );
    assert_eq!(parse_dev_t(&[1, 2, 3]).unwrap_err(), 3);
}

#[test]
fn major_and_minor_numbers() {
    assert_eq!(major_of(0xe280), 226);
    assert_eq!(minor_of(0xe280), 128);
    assert_eq!(major_of(0x1234_5000_0abc_de00), 0x1234_5cde);
    assert_eq!(minor_of(0x0000_0000_7890_00ab), 0x0007_89ab);
}

#[test]
fn names_of_nodes() {
    assert_eq!(file_name("/dev/dri/card1").unwrap(), "card1");
    assert_eq!(file_name("/dev/dri/").unwrap(), "dri");
    assert!(file_name("/").is_none());
    assert!(is_render_node("/dev/dri/renderD129"));
    assert!(!is_render_node("/dev/dri/card0"));
    assert_eq!(card_number("card12"), Some(12));
    assert_eq!(card_number("cardX"), None);
    assert_eq!(fallback_path("card1").unwrap(), "/dev/dri/renderD129");
    assert!(fallback_path("renderD128").is_none());
}

#[test]
fn a_render_node_stands_for_itself() {
    let t = tree();
    assert_eq!(path(render_node_from_dev_t(&t, 0xe280)), "/dev/dri/renderD128");
}

#[test]
fn a_card_leads_to_the_render_node_of_its_device() {
    let t = tree();
    assert!(can_resolve(&t, 0xe200));
    assert_eq!(path(render_node_from_dev_t(&t, 0xe200)), "/dev/dri/renderD128");
    let bytes = 0xe200u64.to_ne_bytes();
    assert!(can_resolve_device(&t, &bytes));
    assert_eq!(path(render_node_from_main_device(&t, &bytes)), "/dev/dri/renderD128");
}

#[test]
fn a_node_is_found_by_its_numbers_where_its_device_number_is_unknown() {
    let mut t = tree();
    t.dri = None;
    assert_eq!(path(render_node_from_dev_t(&t, 0xe200)), "/dev/dri/renderD128");
}

#[test]
fn the_conventional_name_is_tried_last() {
    let mut t = tree();
    t.class = Some(vec![entry("card0", "226:0", "/sys/pci/gpu")]);
    assert_eq!(path(render_node_from_dev_t(&t, 0xe200)), "/dev/dri/renderD128");
    t.existing = vec!["/dev/dri/card0".to_string()];
    assert!(matches!(render_node_from_dev_t(&t, 0xe200), Err(NodeError::NoRenderNode(_))));
}

#[test]
fn failures_of_the_search() {
    let t = tree();
    assert!(matches!(render_node_from_main_device(&t, &[]), Err(NodeError::Empty)));
    assert!(matches!(render_node_from_main_device(&t, &[1]), Err(NodeError::NoMatch)));
    assert!(matches!(render_node_from_dev_t(&t, 7), Err(NodeError::NoMatch)));
    assert!(matches!(ensure_render_node(&t, "/", &None), Err(NodeError::NoFileName)));
    assert!(matches!(
        ensure_render_node(&t, "/dev/dri/card0", &None),
        Err(NodeError::Unresolved(_))
    ));
}

#[test]
fn a_node_is_mapped_by_its_device_even_where_it_is_a_render_node() {
    let t = tree();
    let gpu = Some("/sys/pci/gpu".to_string());
    let other = "/dev/dri/renderD129";
    assert_eq!(path(ensure_render_node(&t, other, &gpu)), other);
    assert_eq!(path(ensure_render_node(&t, other, &None)), other);
    assert_eq!(path(render_node_from_drm_node(&t, other, &gpu)), "/dev/dri/renderD128");
    assert!(matches!(
        render_node_from_drm_node(&t, other, &None),
        Err(NodeError::Unresolved(p)) if p == "/sys/class/drm/renderD129/device"
    ));
    let found = path(ensure_render_node(&t, "/dev/dri/card0", &gpu));
    assert_eq!(path(ensure_render_node(&t, &found, &None)), found);
}

#[test]
fn card_numbers_must_leave_room() {
    let mut t = tree();
    let gone = Some("/sys/pci/gone".to_string());
    t.class = None;
    assert!(card_fits(&t, "/dev/dri/card4294967167", &gone));
    assert!(!card_fits(&t, "/dev/dri/card4294967168", &gone));
    assert!(card_fits(&t, "/dev/dri/card4294967168", &None));
}

#[test]
fn device_numbers_keep_their_order_of_bytes() {
    let mut bytes = 0xe280u64.to_ne_bytes();
    assert_eq!(parse_dev_t(&bytes).unwrap(), 0xe280);
    bytes.reverse();
    assert_eq!(parse_dev_t(&bytes).unwrap(), 0xe280u64.swap_bytes());
}

#[test]
fn what_is_said_where_no_render_node_is_found() {
    let text = |e: NodeError| e.text(&[1, 20, 255]);
    assert_eq!(text(NodeError::Empty), "main_device is empty");
    assert_eq!(
        text(NodeError::NoMatch),
        "No /dev/dri node matching main_device ([1, 20, 255]) found"
    );
    assert_eq!(
        NodeError::NoMatch.text(&[]),
        "No /dev/dri node matching main_device ([]) found"
    );
    assert_eq!(text(NodeError::NoFileName), "DRM node has no file name");
    assert_eq!(
        text(NodeError::Unresolved("/sys/class/drm/card0/device".to_string())),
        "Failed to canonicalize \"/sys/class/drm/card0/device\""
    );
    assert_eq!(
        text(NodeError::NoRenderNode("/dev/dri/a\"b".to_string())),
        "Failed to map \"/dev/dri/a\\\"b\" to a renderD* node"
    );
    assert_eq!(say_unresolved("<p>"), "Failed to canonicalize <p>");
    assert_eq!(say_unmapped("<p>"), "Failed to map <p> to a renderD* node");
}
