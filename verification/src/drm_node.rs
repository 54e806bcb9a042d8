//! Finding the render node of the compositor's device.
//!
//! The compositor names its device by a device number. The caller reads the DRM
//! nodes and their entries in sysfs into a [`DrmTree`]; which node is meant is
//! decided here.
use vstd::prelude::*;

use crate::text;

verus! {

/// A node below `/dev/dri`.
pub struct DriNode {
    pub path: String,
    /// The device number of the node; `None` where it could not be read.
    pub rdev: Option<u64>,
    /// The resolved path of `/sys/class/drm/<file name>/device`; `None` where it
    /// does not resolve.
    pub device: Option<String>,
}

/// An entry of `/sys/class/drm`.
pub struct ClassEntry {
    pub name: String,
    /// The contents of the entry's `dev` file; `None` where it could not be read.
    pub dev: Option<String>,
    /// The resolved path of the entry's `device` link; `None` where it does not resolve.
    pub device: Option<String>,
}

/// What is known of the DRM devices of the machine.
pub struct DrmTree {
    /// `/dev/dri` in the order it is listed; `None` where it cannot be listed.
    pub dri: Option<Vec<DriNode>>,
    /// `/sys/class/drm` in the order it is listed; `None` where it cannot be listed.
    pub class: Option<Vec<ClassEntry>>,
    /// Paths that exist, among `/dev/dri/<name>` for the names in `class` and the
    /// [`fallback_path`]s of both lists.
    pub existing: Vec<String>,
}

/// Why no render node was found.
pub enum NodeError {
    /// The device number is empty.
    Empty,
    /// No node has the device number.
    NoMatch,
    /// The node has no file name.
    NoFileName,
    /// The sysfs path of the node's device does not resolve.
    Unresolved(String),
    /// The node has no render node.
    NoRenderNode(String),
}

/// The contents of a [`NodeError`].
pub enum NodeErrorModel {
    Empty,
    NoMatch,
    NoFileName,
    Unresolved(Seq<char>),
    NoRenderNode(Seq<char>),
}

impl View for NodeError {
    type V = NodeErrorModel;

    open spec fn view(&self) -> NodeErrorModel {
        match *self {
            NodeError::Empty => NodeErrorModel::Empty,
            NodeError::NoMatch => NodeErrorModel::NoMatch,
            NodeError::NoFileName => NodeErrorModel::NoFileName,
            NodeError::Unresolved(p) => NodeErrorModel::Unresolved(p@),
            NodeError::NoRenderNode(p) => NodeErrorModel::NoRenderNode(p@),
        }
    }
}

/// The bytes as a list of numbers.
pub open spec fn bytes_list(bytes: Seq<u8>) -> Seq<char> {
    text::list_of(bytes.map_values(|b: u8| text::decimal(b as nat)))
}

fn bytes_text(bytes: &[u8]) -> (r: String)
    ensures
        r@ == bytes_list(bytes@),
{
    let ghost shown = bytes@.map_values(|b: u8| text::decimal(b as nat));
    let mut list: Vec<String> = Vec::new();
    let mut i: usize = 0;
    assert(list.deep_view() =~= shown.take(0));
    while i < bytes.len()
        invariant
            i <= bytes@.len(),
            shown == bytes@.map_values(|b: u8| text::decimal(b as nat)),
            list.deep_view() == shown.take(i as int),
        decreases bytes@.len() - i,
    {
        let ghost before = list.deep_view();
        let mut number: String = String::new();
        text::push_decimal(&mut number, bytes[i] as u64);
        assert(number@ =~= shown[i as int]);
        list.push(number);
        assert(list.deep_view() =~= before.push(number@));
        assert(list.deep_view() =~= shown.take(i + 1));
        i += 1;
    }
    assert(shown.take(shown.len() as int) =~= shown);
    text::list_text(&list)
}

/// What is said where a sysfs path cannot be resolved, given the path in quotes.
pub open spec fn unresolved_text(quoted: Seq<char>) -> Seq<char> {
    "Failed to canonicalize "@ + quoted
}

/// What is said where a node has no render node, given its path in quotes.
pub open spec fn unmapped_text(quoted: Seq<char>) -> Seq<char> {
    "Failed to map "@ + quoted + " to a renderD* node"@
}

/// What to say where a sysfs path cannot be resolved, given the path in quotes.
pub fn say_unresolved(quoted: &str) -> (r: String)
    ensures
        r@ == unresolved_text(quoted@),
{
    text::join("Failed to canonicalize ", quoted)
}

/// What to say where a node has no render node, given its path in quotes.
pub fn say_unmapped(quoted: &str) -> (r: String)
    ensures
        r@ == unmapped_text(quoted@),
{
    let mut r: String = text::join("Failed to map ", quoted);
    r.append(" to a renderD* node");
    r
}

impl NodeErrorModel {
    /// What is said of the error, where `device` is what was searched for.
    pub open spec fn text_of(self, device: Seq<u8>) -> Seq<char> {
        match self {
            NodeErrorModel::Empty => "main_device is empty"@,
            NodeErrorModel::NoMatch => "No /dev/dri node matching main_device ("@ + bytes_list(
                device,
            ) + ") found"@,
            NodeErrorModel::NoFileName => "DRM node has no file name"@,
            NodeErrorModel::Unresolved(path) => unresolved_text(text::debug_path_text(path)),
            NodeErrorModel::NoRenderNode(path) => unmapped_text(text::debug_path_text(path)),
        }
    }
}

impl NodeError {
    /// What to say of the error, where `device` is what was searched for.
    pub fn text(&self, device: &[u8]) -> (r: String)
        ensures
            r@ == self@.text_of(device@),
    {
        match self {
            NodeError::Empty => "main_device is empty".to_string(),
            NodeError::NoMatch => {
                let mut r: String = text::join(
                    "No /dev/dri node matching main_device (",
                    bytes_text(device).as_str(),
                );
                r.append(") found");
                r
            },
            NodeError::NoFileName => "DRM node has no file name".to_string(),
            NodeError::Unresolved(path) => say_unresolved(
                text::debug_path(path.as_str()).as_str(),
            ),
            NodeError::NoRenderNode(path) => say_unmapped(text::debug_path(path.as_str()).as_str()),
        }
    }
}

/// The contents of the outcome of a search.
pub open spec fn node_view(r: Result<String, NodeError>) -> Result<Seq<char>, NodeErrorModel> {
    match r {
        Ok(p) => Ok(p@),
        Err(e) => Err(e@),
    }
}

pub open spec fn text_view(s: Option<String>) -> Option<Seq<char>> {
    match s {
        Some(t) => Some(t@),
        None => None,
    }
}

// ---------------------------------------------------------------------------
// Device numbers

/// The number that bytes write, least significant byte first.
pub open spec fn le_value(bytes: Seq<u8>) -> nat
    decreases bytes.len(),
{
    if bytes.len() == 0 {
        0
    } else {
        bytes[0] as nat + 256 * le_value(bytes.skip(1))
    }
}

/// The number that bytes write, most significant byte first.
pub open spec fn be_value(bytes: Seq<u8>) -> nat
    decreases bytes.len(),
{
    if bytes.len() == 0 {
        0
    } else {
        256 * be_value(bytes.drop_last()) + bytes.last() as nat
    }
}

/// 256 to the power `n`.
pub open spec fn byte_power(n: nat) -> nat
    decreases n,
{
    if n == 0 {
        1
    } else {
        256 * byte_power((n - 1) as nat)
    }
}

/// The `n` bytes that write `v`, least significant byte first.
pub open spec fn le_bytes(v: nat, n: nat) -> Seq<u8>
    decreases n,
{
    if n == 0 {
        Seq::empty()
    } else {
        seq![(v % 256) as u8] + le_bytes(v / 256, (n - 1) as nat)
    }
}

/// The `n` bytes that write `v`, most significant byte first.
pub open spec fn be_bytes(v: nat, n: nat) -> Seq<u8>
    decreases n,
{
    if n == 0 {
        Seq::empty()
    } else {
        be_bytes(v / 256, (n - 1) as nat).push((v % 256) as u8)
    }
}

proof fn lemma_bytes_read_back(v: nat, n: nat)
    requires
        v < byte_power(n),
    ensures
        le_bytes(v, n).len() == n,
        be_bytes(v, n).len() == n,
        le_value(le_bytes(v, n)) == v,
        be_value(be_bytes(v, n)) == v,
    decreases n,
{
    if n > 0 {
        lemma_bytes_read_back(v / 256, (n - 1) as nat);
        assert(le_bytes(v, n).skip(1) =~= le_bytes(v / 256, (n - 1) as nat));
        assert(be_bytes(v, n).drop_last() =~= be_bytes(v / 256, (n - 1) as nat));
    }
}

/// The bytes that write a device number read back as that number, in the order in which
/// they were written: eight of them always, four where the number fits.
pub proof fn law_device_number_reads_back(dev: u64)
    ensures
        le_bytes(dev as nat, 8).len() == 8,
        le_value(le_bytes(dev as nat, 8)) == dev,
        be_bytes(dev as nat, 8).len() == 8,
        be_value(be_bytes(dev as nat, 8)) == dev,
        dev <= u32::MAX ==> le_bytes(dev as nat, 4).len() == 4 && le_value(le_bytes(dev as nat, 4))
            == dev,
        dev <= u32::MAX ==> be_bytes(dev as nat, 4).len() == 4 && be_value(be_bytes(dev as nat, 4))
            == dev,
{
    reveal_with_fuel(byte_power, 9);
    lemma_bytes_read_back(dev as nat, 8);
    if dev <= u32::MAX {
        lemma_bytes_read_back(dev as nat, 4);
    }
}

/// Calls `u64::from_ne_bytes`. The value is the one the bytes write in the byte order
/// of the machine, which is one of the two; which one is left open here.
#[verifier::external_body]
fn u64_from_ne_bytes(bytes: [u8; 8]) -> (r: u64)
    ensures
        r == le_value(bytes@) || r == be_value(bytes@),
{
    u64::from_ne_bytes(bytes)
}

/// Calls `u32::from_ne_bytes`. The value is the one the bytes write in the byte order
/// of the machine, which is one of the two; which one is left open here.
#[verifier::external_body]
fn u32_from_ne_bytes(bytes: [u8; 4]) -> (r: u32)
    ensures
        r == le_value(bytes@) || r == be_value(bytes@),
{
    u32::from_ne_bytes(bytes)
}

/// Reads a device number in the byte order of the machine. It has four or eight
/// bytes; another length is returned as the error.
pub fn parse_dev_t(bytes: &[u8]) -> (r: Result<u64, usize>)
    ensures
        r is Ok <==> bytes@.len() == 4 || bytes@.len() == 8,
        r matches Ok(dev) ==> dev == le_value(bytes@) || dev == be_value(bytes@),
        r matches Err(n) ==> n == bytes@.len(),
{
    if bytes.len() == 8 {
        let arr: [u8; 8] = [
            bytes[0],
            bytes[1],
            bytes[2],
            bytes[3],
            bytes[4],
            bytes[5],
            bytes[6],
            bytes[7],
        ];
        assert(arr@ =~= bytes@);
        Ok(u64_from_ne_bytes(arr))
    } else if bytes.len() == 4 {
        let arr: [u8; 4] = [bytes[0], bytes[1], bytes[2], bytes[3]];
        assert(arr@ =~= bytes@);
        Ok(u32_from_ne_bytes(arr) as u64)
    } else {
        Err(bytes.len())
    }
}

/// The device number that Linux makes of a major and a minor number.
pub open spec fn makedev(major: u64, minor: u64) -> u64 {
    ((major & 0xfff) << 8) | ((major & 0xfffff000) << 32) | (minor & 0xff) | ((minor & 0xffffff00)
        << 12)
}

/// The major number in a device number.
pub open spec fn major_bits(dev: u64) -> u64 {
    ((dev >> 8) & 0xfff) | ((dev >> 32) & 0xfffff000)
}

/// The minor number in a device number.
pub open spec fn minor_bits(dev: u64) -> u64 {
    (dev & 0xff) | ((dev >> 12) & 0xffffff00)
}

/// The major number in the device number `dev`.
pub fn major_of(dev: u64) -> (r: u64)
    ensures
        r == major_bits(dev),
        r <= u32::MAX,
{
    assert(((dev >> 8) & 0xfff_u64) | ((dev >> 32) & 0xfffff000_u64) <= 0xffff_ffff) by (bit_vector);
    ((dev >> 8) & 0xfff_u64) | ((dev >> 32) & 0xfffff000_u64)
}

/// The minor number in the device number `dev`.
pub fn minor_of(dev: u64) -> (r: u64)
    ensures
        r == minor_bits(dev),
        r <= u32::MAX,
{
    assert((dev & 0xff_u64) | ((dev >> 12) & 0xffffff00_u64) <= 0xffff_ffff) by (bit_vector);
    (dev & 0xff_u64) | ((dev >> 12) & 0xffffff00_u64)
}

/// Major and minor number are what the device number was made of.
pub proof fn law_makedev_splits(major: u64, minor: u64)
    requires
        major <= u32::MAX,
        minor <= u32::MAX,
    ensures
        major_bits(makedev(major, minor)) == major,
        minor_bits(makedev(major, minor)) == minor,
{
    assert(major_bits(makedev(major, minor)) == major) by (bit_vector)
        requires
            major <= 0xffff_ffff,
            minor <= 0xffff_ffff,
    ;
    assert(minor_bits(makedev(major, minor)) == minor) by (bit_vector)
        requires
            major <= 0xffff_ffff,
            minor <= 0xffff_ffff,
    ;
}

/// Major and minor number together are the whole device number.
pub proof fn law_makedev_joins(dev: u64)
    ensures
        makedev(major_bits(dev), minor_bits(dev)) == dev,
{
    assert(makedev(major_bits(dev), minor_bits(dev)) == dev) by (bit_vector);
}

// ---------------------------------------------------------------------------
// Paths

/// The last of `parts` that is neither empty nor a single dot; `None` where there is
/// none or where it is `..`.
pub open spec fn last_normal(parts: Seq<Seq<char>>) -> Option<Seq<char>>
    decreases parts.len(),
{
    if parts.len() == 0 {
        None
    } else if parts.last().len() == 0 || parts.last() == "."@ {
        last_normal(parts.drop_last())
    } else if parts.last() == ".."@ {
        None
    } else {
        Some(parts.last())
    }
}

/// The final component of a path.
pub open spec fn file_name_of(path: Seq<char>) -> Option<Seq<char>> {
    last_normal(text::split_on(path, '/'))
}

pub open spec fn is_render_path(path: Seq<char>) -> bool {
    file_name_of(path) is Some && text::starts_with_seq(file_name_of(path)->0, "renderD"@)
}

/// The path of a node of the given name.
pub open spec fn node_path_of(name: Seq<char>) -> Seq<char> {
    "/dev/dri/"@ + name
}

/// The number in a name such as `card0`.
pub open spec fn card_number_of(name: Seq<char>) -> Option<nat> {
    if text::starts_with_seq(name, "card"@) {
        text::parse_decimal(name.skip("card"@.len() as int), u32::MAX as nat)
    } else {
        None
    }
}

/// The render node that card `n` has by convention: `card0` has `renderD128`.
pub open spec fn conventional_render_path(n: nat) -> Seq<char> {
    "/dev/dri/renderD"@ + text::decimal(128 + n)
}

/// The final component of `path`.
pub fn file_name(path: &str) -> (r: Option<String>)
    ensures
        text_view(r) == file_name_of(path@),
{
    let parts = text::split(path, '/');
    let ghost all = parts.deep_view();
    let mut i: usize = parts.len();
    assert(all.take(i as int) =~= all);
    while i > 0
        invariant
            i <= parts.len(),
            all == parts.deep_view(),
            all == text::split_on(path@, '/'),
            last_normal(all.take(i as int)) == last_normal(all),
        decreases i,
    {
        let part = parts[i - 1].as_str();
        assert(all.take(i as int).last() == part@);
        assert(all.take(i as int).drop_last() =~= all.take(i - 1));
        if !part.is_empty() && !text::same(part, ".") {
            if text::same(part, "..") {
                return None;
            }
            return Some(part.to_string());
        }
        i -= 1;
    }
    None
}

/// Whether the file name of `path` is that of a render node.
pub fn is_render_node(path: &str) -> (r: bool)
    ensures
        r == is_render_path(path@),
{
    match file_name(path) {
        Some(name) => text::starts_with(name.as_str(), "renderD"),
        None => false,
    }
}

/// The number in a name such as `card0`.
pub fn card_number(name: &str) -> (r: Option<u32>)
    ensures
        r == match card_number_of(name@) {
            Some(n) => Some(n as u32),
            None => None,
        },
{
    if !text::starts_with(name, "card") {
        return None;
    }
    proof {
        reveal_strlit("card");
        assert(name@.skip(4) =~= name@.subrange(4, name@.len() as int));
    }
    text::parse_u32(name.substring_char(4, name.unicode_len()))
}

/// The render node that a card of the given name has by convention.
pub fn fallback_path(name: &str) -> (r: Option<String>)
    requires
        card_number_of(name@) matches Some(n) ==> 128 + n <= u32::MAX,
    ensures
        text_view(r) == match card_number_of(name@) {
            Some(n) => Some(conventional_render_path(n)),
            None => None,
        },
{
    match card_number(name) {
        Some(n) => {
            let mut path: String = "/dev/dri/renderD".to_string();
            text::push_decimal(&mut path, (128 + n) as u64);
            Some(path)
        },
        None => None,
    }
}

// ---------------------------------------------------------------------------
// The search

/// The first node with the device number `dev`.
pub open spec fn node_with_rdev(nodes: Seq<DriNode>, dev: u64) -> Option<DriNode>
    decreases nodes.len(),
{
    if nodes.len() == 0 {
        None
    } else if nodes[0].rdev == Some(dev) {
        Some(nodes[0])
    } else {
        node_with_rdev(nodes.skip(1), dev)
    }
}

/// Whether the entry is a device, not a connector, with the given `major:minor`, and
/// its node exists.
pub open spec fn entry_matches(
    e: ClassEntry,
    expected: Seq<char>,
    existing: Seq<Seq<char>>,
) -> bool {
    &&& !e.name@.contains('-')
    &&& e.dev is Some
    &&& text::trim_of(e.dev->0@) == expected
    &&& existing.contains(node_path_of(e.name@))
}

/// The first entry that matches.
pub open spec fn entry_with_numbers(
    entries: Seq<ClassEntry>,
    expected: Seq<char>,
    existing: Seq<Seq<char>>,
) -> Option<ClassEntry>
    decreases entries.len(),
{
    if entries.len() == 0 {
        None
    } else if entry_matches(entries[0], expected, existing) {
        Some(entries[0])
    } else {
        entry_with_numbers(entries.skip(1), expected, existing)
    }
}

/// The first render node whose sysfs device is `device`.
pub open spec fn render_with_device(entries: Seq<ClassEntry>, device: Seq<char>) -> Option<
    Seq<char>,
>
    decreases entries.len(),
{
    if entries.len() == 0 {
        None
    } else if text::starts_with_seq(entries[0].name@, "renderD"@) && text_view(entries[0].device)
        == Some(device) {
        Some(node_path_of(entries[0].name@))
    } else {
        render_with_device(entries.skip(1), device)
    }
}

pub open spec fn numbers_text(dev: u64) -> Seq<char> {
    text::decimal(major_bits(dev) as nat) + ":"@ + text::decimal(minor_bits(dev) as nat)
}

impl DrmTree {
    pub open spec fn dri_nodes(self) -> Seq<DriNode> {
        match self.dri {
            Some(v) => v@,
            None => seq![],
        }
    }

    pub open spec fn class_entries(self) -> Seq<ClassEntry> {
        match self.class {
            Some(v) => v@,
            None => seq![],
        }
    }

    /// The path of the node with the device number `dev`, and its sysfs device: the
    /// node that has the number, else the one whose sysfs entry lists it.
    pub open spec fn selected(self, dev: u64) -> Option<(Seq<char>, Option<Seq<char>>)> {
        match node_with_rdev(self.dri_nodes(), dev) {
            Some(n) => Some((n.path@, text_view(n.device))),
            None => match entry_with_numbers(
                self.class_entries(),
                numbers_text(dev),
                self.existing.deep_view(),
            ) {
                Some(e) => Some((node_path_of(e.name@), text_view(e.device))),
                None => None,
            },
        }
    }

    /// `path` itself where it is a render node, else the render node of the DRM node there.
    pub open spec fn render_node(self, path: Seq<char>, device: Option<Seq<char>>) -> Result<
        Seq<char>,
        NodeErrorModel,
    > {
        if is_render_path(path) {
            Ok(path)
        } else {
            self.mapped_node(path, device)
        }
    }

    /// The render node of a DRM node: the one with the same sysfs device, else the one that
    /// goes with the number of the card by convention.
    pub open spec fn mapped_node(self, path: Seq<char>, device: Option<Seq<char>>) -> Result<
        Seq<char>,
        NodeErrorModel,
    > {
        if file_name_of(path) is None {
            Err(NodeErrorModel::NoFileName)
        } else if device is None {
            Err(
                NodeErrorModel::Unresolved(
                    "/sys/class/drm/"@ + file_name_of(path)->0 + "/device"@,
                ),
            )
        } else if render_with_device(self.class_entries(), device->0) is Some {
            Ok(render_with_device(self.class_entries(), device->0)->0)
        } else {
            match card_number_of(file_name_of(path)->0) {
                Some(n) => if self.existing.deep_view().contains(conventional_render_path(n)) {
                    Ok(conventional_render_path(n))
                } else {
                    Err(NodeErrorModel::NoRenderNode(path))
                },
                None => Err(NodeErrorModel::NoRenderNode(path)),
            }
        }
    }

    /// The render node of the device with the number `dev`.
    pub open spec fn resolved(self, dev: u64) -> Result<Seq<char>, NodeErrorModel> {
        match self.selected(dev) {
            Some(found) => self.render_node(found.0, found.1),
            None => Err(NodeErrorModel::NoMatch),
        }
    }

    /// Whether the number of the conventional render node fits, where mapping the node
    /// comes to it.
    pub open spec fn card_fits(self, path: Seq<char>, device: Option<Seq<char>>) -> bool {
        (file_name_of(path) is Some && device is Some && render_with_device(
            self.class_entries(),
            device->0,
        ) is None) ==> (card_number_of(file_name_of(path)->0) matches Some(n) ==> 128 + n
            <= u32::MAX)
    }

    /// Whether the search for `dev` is free of overflow.
    pub open spec fn can_resolve(self, dev: u64) -> bool {
        self.selected(dev) matches Some(found) ==> is_render_path(found.0) || self.card_fits(
            found.0,
            found.1,
        )
    }
}

/// A node below `/dev/dri` with the device number `dev`.
pub fn find_drm_node_by_dev_t(tree: &DrmTree, dev: u64) -> (r: Option<&DriNode>)
    ensures
        r == match node_with_rdev(tree.dri_nodes(), dev) {
            Some(n) => Some(&n),
            None => None,
        },
{
    match &tree.dri {
        Some(nodes) => {
            let mut i: usize = 0;
            assert(nodes@.skip(0) =~= nodes@);
            while i < nodes.len()
                invariant
                    i <= nodes.len(),
                    tree.dri_nodes() == nodes@,
                    node_with_rdev(nodes@.skip(i as int), dev) == node_with_rdev(nodes@, dev),
                decreases nodes.len() - i,
            {
                assert(nodes@.skip(i as int)[0] == nodes@[i as int]);
                assert(nodes@.skip(i as int).skip(1) =~= nodes@.skip(i + 1));
                match nodes[i].rdev {
                    Some(rdev) => {
                        if rdev == dev {
                            return Some(&nodes[i]);
                        }
                    },
                    None => {},
                }
                i += 1;
            }
            None
        },
        None => None,
    }
}

/// An entry of `/sys/class/drm` whose `dev` file lists `major:minor` and whose node
/// exists.
pub fn find_drm_node_by_major_minor(tree: &DrmTree, major: u64, minor: u64) -> (r: Option<
    &ClassEntry,
>)
    ensures
        r == match entry_with_numbers(
            tree.class_entries(),
            text::decimal(major as nat) + ":"@ + text::decimal(minor as nat),
            tree.existing.deep_view(),
        ) {
            Some(e) => Some(&e),
            None => None,
        },
{
    let mut expected: String = String::new();
    text::push_decimal(&mut expected, major);
    expected.append(":");
    text::push_decimal(&mut expected, minor);
    assert(Seq::<char>::empty() + text::decimal(major as nat) =~= text::decimal(major as nat));
    let ghost known = tree.existing.deep_view();
    match &tree.class {
        Some(entries) => {
            let mut i: usize = 0;
            assert(entries@.skip(0) =~= entries@);
            while i < entries.len()
                invariant
                    i <= entries.len(),
                    tree.class_entries() == entries@,
                    expected@ == text::decimal(major as nat) + ":"@ + text::decimal(minor as nat),
                    known == tree.existing.deep_view(),
                    entry_with_numbers(entries@.skip(i as int), expected@, known)
                        == entry_with_numbers(entries@, expected@, known),
                decreases entries.len() - i,
            {
                let entry = &entries[i];
                assert(entries@.skip(i as int)[0] == entry);
                assert(entries@.skip(i as int).skip(1) =~= entries@.skip(i + 1));
                if !text::contains_char(entry.name.as_str(), '-') {
                    match &entry.dev {
                        Some(content) => {
                            if text::same(text::trim(content.as_str()), expected.as_str()) {
                                let path = text::join("/dev/dri/", entry.name.as_str());
                                if text::contains_name(&tree.existing, path.as_str()) {
                                    return Some(entry);
                                }
                            }
                        },
                        None => {},
                    }
                }
                i += 1;
            }
            None
        },
        None => None,
    }
}

/// The render node whose sysfs device is `device`.
pub fn render_node_from_sys_device(tree: &DrmTree, device: &str) -> (r: Option<String>)
    ensures
        text_view(r) == render_with_device(tree.class_entries(), device@),
{
    match &tree.class {
        Some(entries) => {
            let mut i: usize = 0;
            assert(entries@.skip(0) =~= entries@);
            while i < entries.len()
                invariant
                    i <= entries.len(),
                    tree.class_entries() == entries@,
                    render_with_device(entries@.skip(i as int), device@) == render_with_device(
                        entries@,
                        device@,
                    ),
                decreases entries.len() - i,
            {
                let entry = &entries[i];
                assert(entries@.skip(i as int)[0] == entry);
                assert(entries@.skip(i as int).skip(1) =~= entries@.skip(i + 1));
                if text::starts_with(entry.name.as_str(), "renderD") {
                    match &entry.device {
                        Some(candidate) => {
                            if text::same(candidate.as_str(), device) {
                                return Some(text::join("/dev/dri/", entry.name.as_str()));
                            }
                        },
                        None => {},
                    }
                }
                i += 1;
            }
            None
        },
        None => None,
    }
}

/// The render node of the DRM node `path`, whose sysfs device is `device`.
pub fn render_node_from_drm_node(tree: &DrmTree, path: &str, device: &Option<String>) -> (r: Result<
    String,
    NodeError,
>)
    requires
        tree.card_fits(path@, text_view(*device)),
    ensures
        node_view(r) == tree.mapped_node(path@, text_view(*device)),
{
    let name: String = match file_name(path) {
        Some(n) => n,
        None => return Err(NodeError::NoFileName),
    };
    let sys_device: &String = match device {
        Some(d) => d,
        None => {
            let mut sys_path: String = text::join("/sys/class/drm/", name.as_str());
            sys_path.append("/device");
            return Err(NodeError::Unresolved(sys_path));
        },
    };
    match render_node_from_sys_device(tree, sys_device.as_str()) {
        Some(render) => return Ok(render),
        None => {},
    }
    match fallback_path(name.as_str()) {
        Some(render_path) => {
            if text::contains_name(&tree.existing, render_path.as_str()) {
                return Ok(render_path);
            }
        },
        None => {},
    }
    Err(NodeError::NoRenderNode(path.to_string()))
}

/// `path` itself where it is a render node, else the render node of the DRM node there.
pub fn ensure_render_node(tree: &DrmTree, path: &str, device: &Option<String>) -> (r: Result<
    String,
    NodeError,
>)
    requires
        is_render_path(path@) || tree.card_fits(path@, text_view(*device)),
    ensures
        node_view(r) == tree.render_node(path@, text_view(*device)),
{
    if is_render_node(path) {
        return Ok(path.to_string());
    }
    render_node_from_drm_node(tree, path, device)
}

/// The render node of the device with the number `dev`.
pub fn render_node_from_dev_t(tree: &DrmTree, dev: u64) -> (r: Result<String, NodeError>)
    requires
        tree.can_resolve(dev),
    ensures
        node_view(r) == tree.resolved(dev),
{
    match find_drm_node_by_dev_t(tree, dev) {
        Some(node) => return ensure_render_node(tree, node.path.as_str(), &node.device),
        None => {},
    }
    let major: u64 = major_of(dev);
    let minor: u64 = minor_of(dev);
    match find_drm_node_by_major_minor(tree, major, minor) {
        Some(entry) => {
            let path = text::join("/dev/dri/", entry.name.as_str());
            ensure_render_node(tree, path.as_str(), &entry.device)
        },
        None => Err(NodeError::NoMatch),
    }
}

/// Whether the number of the conventional render node fits, where the search for `dev`
/// comes to it.
pub fn can_resolve(tree: &DrmTree, dev: u64) -> (r: bool)
    ensures
        r == tree.can_resolve(dev),
{
    match find_drm_node_by_dev_t(tree, dev) {
        Some(node) => {
            return is_render_node(node.path.as_str()) || card_fits(
                tree,
                node.path.as_str(),
                &node.device,
            );
        },
        None => {},
    }
    match find_drm_node_by_major_minor(tree, major_of(dev), minor_of(dev)) {
        Some(entry) => {
            let path = text::join("/dev/dri/", entry.name.as_str());
            is_render_node(path.as_str()) || card_fits(tree, path.as_str(), &entry.device)
        },
        None => true,
    }
}

/// Whether [`render_node_from_drm_node`] can be asked for the node: whether the number of the
/// conventional render node fits, where it comes to it.
pub fn card_fits(tree: &DrmTree, path: &str, device: &Option<String>) -> (r: bool)
    ensures
        r == tree.card_fits(path@, text_view(*device)),
{
    match (file_name(path), device) {
        (Some(name), Some(d)) => {
            if render_node_from_sys_device(tree, d.as_str()).is_some() {
                return true;
            }
            match card_number(name.as_str()) {
                Some(n) => n <= u32::MAX - 128,
                None => true,
            }
        },
        _ => true,
    }
}

proof fn lemma_value_bounds(bytes: Seq<u8>)
    ensures
        le_value(bytes) < byte_power(bytes.len()),
        be_value(bytes) < byte_power(bytes.len()),
    decreases bytes.len(),
{
    if bytes.len() > 0 {
        lemma_value_bounds(bytes.skip(1));
        lemma_value_bounds(bytes.drop_last());
    }
}

proof fn lemma_value_fits(bytes: Seq<u8>)
    requires
        bytes.len() <= 8,
    ensures
        le_value(bytes) <= u64::MAX,
        be_value(bytes) <= u64::MAX,
{
    lemma_value_bounds(bytes);
    reveal_with_fuel(byte_power, 9);
}

fn read_le(bytes: &[u8]) -> (r: u64)
    requires
        bytes@.len() <= 8,
    ensures
        r == le_value(bytes@),
{
    let mut v: u64 = 0;
    let mut i: usize = bytes.len();
    while i > 0
        invariant
            bytes@.len() <= 8,
            i <= bytes@.len(),
            v == le_value(bytes@.skip(i as int)),
        decreases i,
    {
        proof {
            lemma_value_fits(bytes@.skip(i - 1));
            assert(bytes@.skip(i - 1).skip(1) =~= bytes@.skip(i as int));
            assert(bytes@.skip(i - 1)[0] == bytes@[i - 1]);
        }
        v = 256 * v + bytes[i - 1] as u64;
        i -= 1;
    }
    assert(bytes@.skip(0) =~= bytes@);
    v
}

fn read_be(bytes: &[u8]) -> (r: u64)
    requires
        bytes@.len() <= 8,
    ensures
        r == be_value(bytes@),
{
    let mut v: u64 = 0;
    let mut i: usize = 0;
    while i < bytes.len()
        invariant
            bytes@.len() <= 8,
            i <= bytes@.len(),
            v == be_value(bytes@.take(i as int)),
        decreases bytes@.len() - i,
    {
        proof {
            lemma_value_fits(bytes@.take(i + 1));
            assert(bytes@.take(i + 1).drop_last() =~= bytes@.take(i as int));
            assert(bytes@.take(i + 1).last() == bytes@[i as int]);
        }
        v = 256 * v + bytes[i] as u64;
        i += 1;
    }
    assert(bytes@.take(i as int) =~= bytes@);
    v
}

/// Whether the search for the device number in `device` is free of overflow, in either
/// byte order.
pub open spec fn device_fits(tree: DrmTree, device: Seq<u8>) -> bool {
    device.len() == 4 || device.len() == 8 ==> tree.can_resolve(le_value(device) as u64)
        && tree.can_resolve(be_value(device) as u64)
}

/// Whether [`render_node_from_main_device`] can be asked for `device`.
pub fn can_resolve_device(tree: &DrmTree, device: &[u8]) -> (r: bool)
    ensures
        r == device_fits(*tree, device@),
{
    if device.len() == 4 || device.len() == 8 {
        can_resolve(tree, read_le(device)) && can_resolve(tree, read_be(device))
    } else {
        true
    }
}

/// What the search for the device whose number is written in `device` finds: it reads the
/// number in one of the two byte orders.
pub open spec fn main_device_resolves(
    tree: DrmTree,
    device: Seq<u8>,
    found: Result<Seq<char>, NodeErrorModel>,
) -> bool {
    if device.len() == 0 {
        found == Err::<Seq<char>, _>(NodeErrorModel::Empty)
    } else if device.len() == 4 || device.len() == 8 {
        found == tree.resolved(le_value(device) as u64) || found == tree.resolved(
            be_value(device) as u64,
        )
    } else {
        found == Err::<Seq<char>, _>(NodeErrorModel::NoMatch)
    }
}

/// The render node of the device whose number is written in `device`, in the byte
/// order of the machine.
pub fn render_node_from_main_device(tree: &DrmTree, device: &[u8]) -> (r: Result<String, NodeError>)
    requires
        device_fits(*tree, device@),
    ensures
        main_device_resolves(*tree, device@, node_view(r)),
{
    if device.len() == 0 {
        return Err(NodeError::Empty);
    }
    match parse_dev_t(device) {
        Ok(dev) => render_node_from_dev_t(tree, dev),
        Err(_) => Err(NodeError::NoMatch),
    }
}

proof fn lemma_render_is_listed(entries: Seq<ClassEntry>, device: Seq<char>)
    ensures
        render_with_device(entries, device) matches Some(p) ==> exists|i: int|
            0 <= i < entries.len() && p == node_path_of((#[trigger] entries[i]).name@)
                && text::starts_with_seq(entries[i].name@, "renderD"@),
    decreases entries.len(),
{
    if entries.len() > 0 {
        lemma_render_is_listed(entries.skip(1), device);
        if render_with_device(entries.skip(1), device) is Some {
            let i = choose|i: int|
                0 <= i < entries.skip(1).len() && render_with_device(entries.skip(1), device)->0
                    == node_path_of((#[trigger] entries.skip(1)[i]).name@)
                    && text::starts_with_seq(entries.skip(1)[i].name@, "renderD"@);
            assert(entries[i + 1] == entries.skip(1)[i]);
        }
    }
}

proof fn lemma_split_single(s: Seq<char>, sep: char)
    requires
        !s.contains(sep),
    ensures
        text::split_on(s, sep) == seq![s],
{
    text::lemma_absent_index(s, sep);
}

proof fn lemma_file_name_of_node(name: Seq<char>)
    requires
        !name.contains('/'),
        text::starts_with_seq(name, "renderD"@),
    ensures
        file_name_of(node_path_of(name)) == Some(name),
{
    reveal_strlit("/dev/dri/");
    reveal_strlit("/dev/dri");
    reveal_strlit("renderD");
    reveal_strlit(".");
    reveal_strlit("..");
    assert("/dev/dri/"@ =~= "/dev/dri"@ + seq!['/']);
    assert(node_path_of(name) =~= "/dev/dri"@ + seq!['/'] + name);
    text::law_split_concat("/dev/dri"@, name, '/');
    lemma_split_single(name, '/');
    let parts = text::split_on(node_path_of(name), '/');
    assert(parts.last() == name);
    assert(name.take(7)[0] == 'r');
    assert(name[0] == 'r');
}

/// The names in `/sys/class/drm` are file names.
pub open spec fn has_file_names(tree: DrmTree) -> bool {
    forall|i: int|
        0 <= i < tree.class_entries().len() ==> !(#[trigger] tree.class_entries()[i]).name@.contains(
            '/',
        )
}

/// The render node that a DRM node is mapped to is one, as long as the names in
/// `/sys/class/drm` are file names.
pub proof fn law_mapped_node_is_render_node(
    tree: DrmTree,
    path: Seq<char>,
    device: Option<Seq<char>>,
)
    requires
        has_file_names(tree),
    ensures
        tree.mapped_node(path, device) matches Ok(found) ==> is_render_path(found),
{
    if file_name_of(path) is Some && device is Some {
        let entries = tree.class_entries();
        lemma_render_is_listed(entries, device->0);
        if render_with_device(entries, device->0) is Some {
            let i = choose|i: int|
                0 <= i < entries.len() && render_with_device(entries, device->0)->0
                    == node_path_of((#[trigger] entries[i]).name@) && text::starts_with_seq(
                    entries[i].name@,
                    "renderD"@,
                );
            lemma_file_name_of_node(entries[i].name@);
        } else if card_number_of(file_name_of(path)->0) is Some {
            let n = card_number_of(file_name_of(path)->0)->0;
            reveal_strlit("/dev/dri/renderD");
            reveal_strlit("/dev/dri/");
            reveal_strlit("renderD");
            let name = "renderD"@ + text::decimal(128 + n);
            assert(conventional_render_path(n) =~= node_path_of(name));
            text::lemma_decimal_digits(128 + n);
            assert(name.take(7) =~= "renderD"@);
            assert(!name.contains('/')) by {
                assert forall|i: int| 0 <= i < name.len() implies name[i] != '/' by {
                    if i >= 7 {
                        assert(name[i] == text::decimal(128 + n)[i - 7]);
                    }
                }
            }
            lemma_file_name_of_node(name);
        }
    }
}

/// A render node stands for itself, whatever sysfs holds; every other node is mapped; and
/// what comes out is a render node, which stands for itself in turn.
pub proof fn law_ensured_node_is_render_node(
    tree: DrmTree,
    path: Seq<char>,
    device: Option<Seq<char>>,
    other_tree: DrmTree,
    other_device: Option<Seq<char>>,
)
    requires
        has_file_names(tree),
    ensures
        is_render_path(path) ==> tree.render_node(path, device) == Ok::<Seq<char>, NodeErrorModel>(
            path,
        ),
        !is_render_path(path) ==> tree.render_node(path, device) == tree.mapped_node(path, device),
        tree.render_node(path, device) matches Ok(found) ==> is_render_path(found)
            && other_tree.render_node(found, other_device) == Ok::<Seq<char>, NodeErrorModel>(
            found,
        ),
{
    law_mapped_node_is_render_node(tree, path, device);
}

/// Whatever the search finds is a render node, as long as the names in
/// `/sys/class/drm` are file names.
pub proof fn law_result_is_render_node(tree: DrmTree, dev: u64)
    requires
        has_file_names(tree),
    ensures
        tree.resolved(dev) matches Ok(path) ==> is_render_path(path),
{
    if tree.selected(dev) is Some {
        let (path, device) = tree.selected(dev)->0;
        law_mapped_node_is_render_node(tree, path, device);
    }
}

/// A node that has the device number and is a render node is the result itself,
/// where it comes first in the listing.
pub proof fn law_own_render_node_is_kept(tree: DrmTree, dev: u64)
    requires
        node_with_rdev(tree.dri_nodes(), dev) is Some,
        is_render_path(node_with_rdev(tree.dri_nodes(), dev)->0.path@),
    ensures
        tree.resolved(dev) == Ok::<Seq<char>, NodeErrorModel>(
            node_with_rdev(tree.dri_nodes(), dev)->0.path@,
        ),
{
}

/// The render node of a sysfs device is a listed one with that device, and the first of them;
/// there is none only where no listed render node has that device.
pub proof fn law_render_node_has_the_device(entries: Seq<ClassEntry>, device: Seq<char>)
    ensures
        render_with_device(entries, device) matches Some(p) ==> exists|i: int|
            {
                &&& 0 <= i < entries.len()
                &&& p == "/dev/dri/"@ + (#[trigger] entries[i]).name@
                &&& text::starts_with_seq(entries[i].name@, "renderD"@)
                &&& entries[i].device matches Some(d) && d@ == device
                &&& forall|j: int|
                    0 <= j < i ==> !(text::starts_with_seq((#[trigger] entries[j]).name@, "renderD"@)
                        && (entries[j].device matches Some(d) && d@ == device))
            },
        render_with_device(entries, device) is None ==> forall|j: int|
            0 <= j < entries.len() ==> !(text::starts_with_seq(
                (#[trigger] entries[j]).name@,
                "renderD"@,
            ) && (entries[j].device matches Some(d) && d@ == device)),
    decreases entries.len(),
{
    if entries.len() > 0 {
        let rest = entries.skip(1);
        law_render_node_has_the_device(rest, device);
        let here = text::starts_with_seq(entries[0].name@, "renderD"@) && (entries[0].device
            matches Some(d) && d@ == device);
        if here {
            assert(render_with_device(entries, device) == Some("/dev/dri/"@ + entries[0].name@));
        } else {
            match render_with_device(rest, device) {
                Some(p) => {
                    let i = choose|i: int|
                        {
                            &&& 0 <= i < rest.len()
                            &&& p == "/dev/dri/"@ + (#[trigger] rest[i]).name@
                            &&& text::starts_with_seq(rest[i].name@, "renderD"@)
                            &&& rest[i].device matches Some(d) && d@ == device
                            &&& forall|j: int|
                                0 <= j < i ==> !(text::starts_with_seq(
                                    (#[trigger] rest[j]).name@,
                                    "renderD"@,
                                ) && (rest[j].device matches Some(d) && d@ == device))
                        };
                    assert(entries[i + 1] == rest[i]);
                    assert forall|j: int| 0 <= j < i + 1 implies !(text::starts_with_seq(
                        (#[trigger] entries[j]).name@,
                        "renderD"@,
                    ) && (entries[j].device matches Some(d) && d@ == device)) by {
                        if j > 0 {
                            assert(rest[j - 1] == entries[j]);
                        }
                    }
                },
                None => {
                    assert forall|j: int| 0 <= j < entries.len() implies !(
                    text::starts_with_seq((#[trigger] entries[j]).name@, "renderD"@) && (
                    entries[j].device matches Some(d) && d@ == device)) by {
                        if j > 0 {
                            assert(rest[j - 1] == entries[j]);
                        }
                    }
                },
            }
        }
    }
}

/// A device number is made up of its major and minor number: eight bits of the minor, twelve
/// of the major, then the rest of the minor and the rest of the major.
pub proof fn law_device_number_is_made_up(dev: u64)
    ensures
        major_bits(dev) <= u32::MAX,
        minor_bits(dev) <= u32::MAX,
        dev == minor_bits(dev) % 256 + 256 * (major_bits(dev) % 4096) + 0x10_0000 * (minor_bits(dev)
            / 256) + 0x1000_0000_0000 * (major_bits(dev) / 4096),
{
    let ma = major_bits(dev);
    let mi = minor_bits(dev);
    assert(ma <= 0xffff_ffff && mi <= 0xffff_ffff && dev == mi % 256 + 256 * (ma % 4096)
        + 0x10_0000 * (mi / 256) + 0x1000_0000_0000 * (ma / 4096)) by (bit_vector)
        requires
            ma == ((dev >> 8) & 0xfff) | ((dev >> 32) & 0xfffff000),
            mi == (dev & 0xff) | ((dev >> 12) & 0xffffff00),
    ;
}

/// The text by which sysfs knows a device is the major number, a colon and the minor number.
pub proof fn law_numbers_text(dev: u64, major: nat, minor: nat)
    requires
        major <= u32::MAX,
        minor <= u32::MAX,
        dev == minor % 256 + 256 * (major % 4096) + 0x10_0000 * (minor / 256) + 0x1000_0000_0000 * (
        major / 4096),
    ensures
        numbers_text(dev) == text::decimal(major) + seq![':'] + text::decimal(minor),
{
    law_device_number_is_made_up(dev);
    reveal_strlit(":");
    assert(":"@ =~= seq![':']);
    let a = major_bits(dev) as int;
    let b = minor_bits(dev) as int;
    lemma_parts_are_unique(
        seq![b % 256, a % 4096, b / 256, a / 4096],
        seq![minor as int % 256, major as int % 4096, minor as int / 256, major as int / 4096],
    );
    lemma_from_parts(a, 4096);
    lemma_from_parts(major as int, 4096);
    lemma_from_parts(b, 256);
    lemma_from_parts(minor as int, 256);
    assert(a == major);
    assert(b == minor);
}

proof fn lemma_from_parts(n: int, d: int)
    requires
        n >= 0,
        d == 256 || d == 4096,
    ensures
        n == d * (n / d) + n % d,
{
}

proof fn lemma_parts_are_unique(x: Seq<int>, y: Seq<int>)
    requires
        x.len() == 4,
        y.len() == 4,
        0 <= x[0] < 256,
        0 <= y[0] < 256,
        0 <= x[1] < 4096,
        0 <= y[1] < 4096,
        0 <= x[2] < 0x100_0000,
        0 <= y[2] < 0x100_0000,
        x[0] + 256 * x[1] + 0x10_0000 * x[2] + 0x1000_0000_0000 * x[3] == y[0] + 256 * y[1]
            + 0x10_0000 * y[2] + 0x1000_0000_0000 * y[3],
    ensures
        x[0] == y[0],
        x[1] == y[1],
        x[2] == y[2],
        x[3] == y[3],
{
    assert(x[3] == y[3]);
    assert(x[2] == y[2]);
    assert(x[1] == y[1]);
}

/// The node that is found by its number is a listed one with that number, and the first of
/// them; there is none only where no listed node has the number.
pub proof fn law_node_found_has_the_number(nodes: Seq<DriNode>, dev: u64)
    ensures
        node_with_rdev(nodes, dev) matches Some(n) ==> exists|i: int|
            {
                &&& 0 <= i < nodes.len()
                &&& n == #[trigger] nodes[i]
                &&& nodes[i].rdev == Some(dev)
                &&& forall|j: int| 0 <= j < i ==> (#[trigger] nodes[j]).rdev != Some(dev)
            },
        node_with_rdev(nodes, dev) is None ==> forall|j: int|
            0 <= j < nodes.len() ==> (#[trigger] nodes[j]).rdev != Some(dev),
    decreases nodes.len(),
{
    if nodes.len() > 0 && nodes[0].rdev != Some(dev) {
        let rest = nodes.skip(1);
        law_node_found_has_the_number(rest, dev);
        assert forall|j: int| 0 < j < nodes.len() implies #[trigger] nodes[j] == rest[j - 1] by {}
        if node_with_rdev(rest, dev) is Some {
            let n = node_with_rdev(rest, dev)->0;
            let i = choose|i: int|
                {
                    &&& 0 <= i < rest.len()
                    &&& n == #[trigger] rest[i]
                    &&& rest[i].rdev == Some(dev)
                    &&& forall|j: int| 0 <= j < i ==> (#[trigger] rest[j]).rdev != Some(dev)
                };
            assert(nodes[i + 1] == rest[i]);
            assert forall|j: int| 0 <= j < i + 1 implies (#[trigger] nodes[j]).rdev != Some(
                dev,
            ) by {
                if j > 0 {
                    assert(rest[j - 1].rdev != Some(dev));
                }
            }
        } else {
            assert forall|j: int| 0 <= j < nodes.len() implies (#[trigger] nodes[j]).rdev != Some(
                dev,
            ) by {
                if j > 0 {
                    assert(rest[j - 1].rdev != Some(dev));
                }
            }
        }
    } else if nodes.len() > 0 {
        assert(nodes[0].rdev == Some(dev));
    }
}

/// The entry is one of a device with these numbers whose node exists: no connector, which has
/// a hyphen in its name.
pub open spec fn lists_numbers(
    e: ClassEntry,
    expected: Seq<char>,
    existing: Seq<Seq<char>>,
) -> bool {
    &&& forall|k: int| 0 <= k < e.name@.len() ==> e.name@[k] != '-'
    &&& e.dev matches Some(content) && text::trim_of(content@) == expected
    &&& exists|k: int| 0 <= k < existing.len() && #[trigger] existing[k] == "/dev/dri/"@ + e.name@
}

/// The entry that is found by its numbers is a listed one with those numbers, and the first
/// of them; there is none only where no listed entry has them.
pub proof fn law_entry_found_has_the_numbers(
    entries: Seq<ClassEntry>,
    expected: Seq<char>,
    existing: Seq<Seq<char>>,
)
    ensures
        entry_with_numbers(entries, expected, existing) matches Some(e) ==> exists|i: int|
            {
                &&& 0 <= i < entries.len()
                &&& e == #[trigger] entries[i]
                &&& lists_numbers(entries[i], expected, existing)
                &&& forall|j: int|
                    0 <= j < i ==> !lists_numbers(#[trigger] entries[j], expected, existing)
            },
        entry_with_numbers(entries, expected, existing) is None ==> forall|j: int|
            0 <= j < entries.len() ==> !lists_numbers(#[trigger] entries[j], expected, existing),
    decreases entries.len(),
{
    if entries.len() > 0 {
        let rest = entries.skip(1);
        law_entry_found_has_the_numbers(rest, expected, existing);
        let e = entries[0];
        assert(entry_matches(e, expected, existing) == lists_numbers(e, expected, existing));
        if !lists_numbers(e, expected, existing) {
            if entry_with_numbers(rest, expected, existing) is Some {
                let n = entry_with_numbers(rest, expected, existing)->0;
                let i = choose|i: int|
                    {
                        &&& 0 <= i < rest.len()
                        &&& n == #[trigger] rest[i]
                        &&& lists_numbers(rest[i], expected, existing)
                        &&& forall|j: int|
                            0 <= j < i ==> !lists_numbers(#[trigger] rest[j], expected, existing)
                    };
                assert(entries[i + 1] == rest[i]);
                assert forall|j: int| 0 <= j < i + 1 implies !lists_numbers(
                    #[trigger] entries[j],
                    expected,
                    existing,
                ) by {
                    if j > 0 {
                        assert(entries[j] == rest[j - 1]);
                    }
                }
            } else {
                assert forall|j: int| 0 <= j < entries.len() implies !lists_numbers(
                    #[trigger] entries[j],
                    expected,
                    existing,
                ) by {
                    if j > 0 {
                        assert(entries[j] == rest[j - 1]);
                    }
                }
            }
        }
    }
}

/// The file name of a path is what follows its last slash; slashes at the end and dots that
/// mean the directory itself do not count, and the parent directory is no file.
pub proof fn law_file_name_follows_the_last_slash(dir: Seq<char>, name: Seq<char>)
    requires
        !name.contains('/'),
        name.len() > 0,
        name != seq!['.'],
        name != seq!['.', '.'],
    ensures
        file_name_of(name) == Some(name),
        file_name_of(dir + seq!['/'] + name) == Some(name),
        file_name_of(dir + seq!['/'] + name + seq!['/']) == Some(name),
        file_name_of(dir + seq!['/'] + name + seq!['/', '.']) == Some(name),
        file_name_of(dir + seq!['/'] + seq!['.', '.']) is None,
        file_name_of(dir + seq!['/']) == file_name_of(dir),
{
    reveal_strlit(".");
    reveal_strlit("..");
    assert("."@ =~= seq!['.']);
    assert(".."@ =~= seq!['.', '.']);
    let none = Seq::<char>::empty();
    let dot = seq!['.'];
    let up = seq!['.', '.'];
    lemma_split_single(name, '/');
    lemma_split_single(none, '/');
    lemma_split_single(dot, '/');
    lemma_split_single(up, '/');
    let path = dir + seq!['/'] + name;
    text::law_split_concat(dir, name, '/');
    text::law_split_concat(path, none, '/');
    text::law_split_concat(path, dot, '/');
    text::law_split_concat(dir, up, '/');
    text::law_split_concat(dir, none, '/');
    assert(path + seq!['/'] + none =~= path + seq!['/']);
    assert(path + seq!['/'] + dot =~= path + seq!['/', '.']);
    assert(dir + seq!['/'] + none =~= dir + seq!['/']);
    let parts = text::split_on(path, '/');
    assert(parts.last() == name);
    assert((parts + seq![none]).drop_last() =~= parts);
    assert((parts + seq![dot]).drop_last() =~= parts);
    assert((parts + seq![none]).last() == none);
    assert((parts + seq![dot]).last() == dot);
    let dirs = text::split_on(dir, '/');
    assert((dirs + seq![up]).last() == up);
    assert((dirs + seq![none]).drop_last() =~= dirs);
    assert((dirs + seq![none]).last() == none);
    assert(seq![name].last() == name);
}

/// A node is a render node exactly where its name starts with `renderD`.
pub proof fn law_render_nodes_are_known_by_name(dir: Seq<char>, name: Seq<char>, rest: Seq<char>)
    requires
        !name.contains('/'),
        name.len() > 0,
        name != seq!['.'],
        name != seq!['.', '.'],
    ensures
        name == seq!['r', 'e', 'n', 'd', 'e', 'r', 'D'] + rest ==> is_render_path(
            dir + seq!['/'] + name,
        ),
        is_render_path(dir + seq!['/'] + name) ==> name.len() >= 7 && name.take(7) == seq![
            'r',
            'e',
            'n',
            'd',
            'e',
            'r',
            'D',
        ],
{
    law_file_name_follows_the_last_slash(dir, name);
    reveal_strlit("renderD");
    assert("renderD"@ =~= seq!['r', 'e', 'n', 'd', 'e', 'r', 'D']);
    text::law_starts_with(name, "renderD"@, rest);
}

/// Where no render node has the sysfs device of a card, it is the one whose number is that of
/// the card and 128, if that exists; a node with another name has none then.
pub proof fn law_card_falls_back_to_convention(
    tree: DrmTree,
    path: Seq<char>,
    device: Seq<char>,
    n: nat,
)
    requires
        file_name_of(path) is Some,
        render_with_device(tree.class_entries(), device) is None,
        n <= u32::MAX,
    ensures
        file_name_of(path)->0 == seq!['c', 'a', 'r', 'd'] + text::decimal(n) ==> {
            let conventional = "/dev/dri/renderD"@ + text::decimal(n + 128);
            tree.mapped_node(path, Some(device)) == if tree.existing.deep_view().contains(
                conventional,
            ) {
                Ok::<Seq<char>, NodeErrorModel>(conventional)
            } else {
                Err(NodeErrorModel::NoRenderNode(path))
            }
        },
        file_name_of(path)->0.take(4) != seq!['c', 'a', 'r', 'd'] ==> tree.mapped_node(
            path,
            Some(device),
        ) == Err::<Seq<char>, NodeErrorModel>(NodeErrorModel::NoRenderNode(path)),
{
    reveal_strlit("card");
    assert("card"@ =~= seq!['c', 'a', 'r', 'd']);
    let name = file_name_of(path)->0;
    if name == seq!['c', 'a', 'r', 'd'] + text::decimal(n) {
        text::law_decimal_reads_back(n, u32::MAX as nat);
        assert(name.take(4) =~= "card"@);
        assert(name.skip(4) =~= text::decimal(n));
    }
}

/// A node that is no render node is mapped to the one with its sysfs device, where there is
/// one; without a file name or a sysfs device it cannot be, and that is told.
pub proof fn law_node_is_mapped_by_its_device(
    tree: DrmTree,
    path: Seq<char>,
    device: Option<Seq<char>>,
)
    ensures
        file_name_of(path) is None ==> tree.mapped_node(path, device) == Err::<
            Seq<char>,
            NodeErrorModel,
        >(NodeErrorModel::NoFileName),
        file_name_of(path) matches Some(name) && device is None ==> tree.mapped_node(path, device)
            == Err::<Seq<char>, NodeErrorModel>(
            NodeErrorModel::Unresolved("/sys/class/drm/"@ + file_name_of(path)->0 + "/device"@),
        ),
        file_name_of(path) is Some && device is Some && render_with_device(
            tree.class_entries(),
            device->0,
        ) is Some ==> tree.mapped_node(path, device) == Ok::<Seq<char>, NodeErrorModel>(
            render_with_device(tree.class_entries(), device->0)->0,
        ),
{
}

/// A device number is looked for among the nodes first and, only where none of them has it,
/// among the entries of sysfs; without either there is no match.
pub proof fn law_nodes_come_before_entries(tree: DrmTree, dev: u64)
    ensures
        node_with_rdev(tree.dri_nodes(), dev) matches Some(n) ==> tree.resolved(dev)
            == tree.render_node(n.path@, match n.device {
            Some(d) => Some(d@),
            None => None,
        }),
        node_with_rdev(tree.dri_nodes(), dev) is None ==> match entry_with_numbers(
            tree.class_entries(),
            numbers_text(dev),
            tree.existing.deep_view(),
        ) {
            Some(e) => tree.resolved(dev) == tree.render_node(
                "/dev/dri/"@ + e.name@,
                match e.device {
                    Some(d) => Some(d@),
                    None => None,
                },
            ),
            None => tree.resolved(dev) == Err::<Seq<char>, NodeErrorModel>(
                NodeErrorModel::NoMatch,
            ),
        },
        tree.dri is None ==> tree.dri_nodes().len() == 0,
        tree.dri matches Some(v) ==> tree.dri_nodes() == v@,
        tree.class is None ==> tree.class_entries().len() == 0,
        tree.class matches Some(v) ==> tree.class_entries() == v@,
{
}

/// In the one order of bytes the first byte counts least, in the other it counts most.
pub proof fn law_byte_orders(bytes: Seq<u8>, b: u8)
    ensures
        le_value(seq![b] + bytes) == b + 256 * le_value(bytes),
        be_value(bytes.push(b)) == 256 * be_value(bytes) + b,
        le_value(Seq::<u8>::empty()) == 0,
        be_value(Seq::<u8>::empty()) == 0,
{
    assert((seq![b] + bytes).skip(1) =~= bytes);
    assert(bytes.push(b).drop_last() =~= bytes);
}

/// The search for a device comes to no overflow exactly where it does not end at a card whose
/// number, with 128 added, is too large for a node: that of a card that is no render node, and
/// whose device no render node has.
pub proof fn law_only_large_card_numbers_overflow(tree: DrmTree, dev: u64)
    ensures
        tree.selected(dev) is None ==> tree.can_resolve(dev),
        tree.selected(dev) matches Some((path, device)) ==> {
            &&& is_render_path(path) || file_name_of(path) is None || device is None
                ==> tree.can_resolve(dev)
            &&& device is Some && render_with_device(tree.class_entries(), device->0) is Some
                ==> tree.can_resolve(dev)
            &&& !is_render_path(path) && file_name_of(path) is Some && device is Some
                && render_with_device(tree.class_entries(), device->0) is None ==> (
            tree.can_resolve(dev) <==> match card_number_of(file_name_of(path)->0) {
                Some(n) => n <= 0xffff_ff7f,
                None => true,
            })
        },
{
}

/// What is said of a search that failed names what was searched for or found, as it is.
pub proof fn law_failed_search_is_told(device: Seq<u8>, path: Seq<char>, quoted: Seq<char>, i: int)
    ensures
        unresolved_text(quoted) == "Failed to canonicalize "@ + quoted,
        unmapped_text(quoted) == "Failed to map "@ + quoted + " to a renderD* node"@,
        NodeErrorModel::Empty.text_of(device) == "main_device is empty"@,
        NodeErrorModel::NoFileName.text_of(device) == "DRM node has no file name"@,
        NodeErrorModel::NoMatch.text_of(device) == "No /dev/dri node matching main_device ("@
            + text::list_of(Seq::new(device.len(), |k: int| text::decimal(device[k] as nat)))
            + ") found"@,
        NodeErrorModel::Unresolved(path).text_of(device) == "Failed to canonicalize "@
            + text::debug_path_text(path),
        NodeErrorModel::NoRenderNode(path).text_of(device) == "Failed to map "@
            + text::debug_path_text(path) + " to a renderD* node"@,
{
    let numbers = Seq::new(device.len(), |k: int| text::decimal(device[k] as nat));
    assert(bytes_list(device) == text::list_of(numbers)) by {
        assert(device.map_values(|b: u8| text::decimal(b as nat)) =~= numbers);
    }
}

/// The number of a device is written in four or eight bytes, the lowest or the highest first;
/// without a byte there is nothing to search for, and any other number of bytes matches no
/// node.
pub proof fn law_device_is_read_from_its_bytes(
    tree: DrmTree,
    device: Seq<u8>,
    found: Result<Seq<char>, NodeErrorModel>,
)
    requires
        main_device_resolves(tree, device, found),
    ensures
        device.len() == 0 ==> found == Err::<Seq<char>, NodeErrorModel>(NodeErrorModel::Empty),
        device.len() != 0 && device.len() != 4 && device.len() != 8 ==> found == Err::<
            Seq<char>,
            NodeErrorModel,
        >(NodeErrorModel::NoMatch),
        device.len() == 4 || device.len() == 8 ==> found == tree.resolved(le_value(device) as u64)
            || found == tree.resolved(be_value(device) as u64),
{
}

/// The search for a device can overflow only where its number is written in four or eight
/// bytes, and then in either byte order.
pub proof fn law_device_fits_in_both_orders(tree: DrmTree, device: Seq<u8>)
    ensures
        device.len() != 4 && device.len() != 8 ==> device_fits(tree, device),
        device.len() == 4 || device.len() == 8 ==> (device_fits(tree, device)
            <==> tree.can_resolve(le_value(device) as u64) && tree.can_resolve(
            be_value(device) as u64,
        )),
{
}

} // verus!
